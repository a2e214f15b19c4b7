//! Running the show: what peers and the operator may ask of the playback, and
//! how the audio output and the network ports follow the settings.

use vstd::prelude::*;

use crate::commands::{missing_text, select_cue};
use crate::ieee::Single;
use crate::qid::{decimal_reading, parsed_qid, Qid};
use crate::show::{has_cue, position, AudioOutputDriver, Cue, CueKind, ShowSettings, ShowView};
use crate::startup::{rejection, shutdown_rejection};
use crate::state::{AppCommand, Panels, SharedState, StateView};
use crate::text::{decimal, push_decimal, same, slice_opt};

verus! {

/// A command for the playback.
#[derive(Debug)]
pub enum ShowControlCommand {
    OpenProject,
    SelectCue(Qid),
    Go,
    Stop,
    Pause,
    Resume,
    Preload,
    Seek { instance_id: u64, seconds: Single },
    Shutdown,
}

/// A command as a peer sends it.
#[derive(Debug)]
pub enum ApiCommand {
    OpenProject,
    SelectCue { qid: String },
    Go,
    Stop,
    Pause,
    Resume,
    Preload,
    Seek { instance_id: u64, seconds: Single },
    Shutdown,
}

/// What is said of a cue number that is none.
pub open spec fn bad_number_text(qid: Seq<char>, error: Seq<char>) -> Seq<char> {
    "invalid cue qid '"@ + qid + "': "@ + error
}

/// The playback command a peer's command stands for, or why it stands for
/// none. `prepared` says whether the project to open was made ready.
pub open spec fn api_meaning(command: ApiCommand, prepared: bool) -> Result<
    ShowControlCommand,
    Seq<char>,
> {
    match command {
        ApiCommand::OpenProject => if prepared {
            Ok(ShowControlCommand::OpenProject)
        } else {
            Err("project was not prepared by the API"@)
        },
        ApiCommand::SelectCue { qid } => match decimal_reading(qid@) {
            Ok(_) => Ok(ShowControlCommand::SelectCue(parsed_qid(qid@)->0)),
            Err(e) => Err(bad_number_text(qid@, e)),
        },
        ApiCommand::Go => Ok(ShowControlCommand::Go),
        ApiCommand::Stop => Ok(ShowControlCommand::Stop),
        ApiCommand::Pause => Ok(ShowControlCommand::Pause),
        ApiCommand::Resume => Ok(ShowControlCommand::Resume),
        ApiCommand::Preload => Ok(ShowControlCommand::Preload),
        ApiCommand::Seek { instance_id, seconds } => Ok(
            ShowControlCommand::Seek { instance_id, seconds },
        ),
        ApiCommand::Shutdown => Ok(ShowControlCommand::Shutdown),
    }
}

/// The command to select a cue whose number was read, or why there is none.
pub fn select_command(qid: &str, read: Result<Qid, String>) -> (r: Result<
    ShowControlCommand,
    String,
>)
    ensures
        match (r, read) {
            (Ok(c), Ok(q)) => c == ShowControlCommand::SelectCue(q),
            (Err(e), Err(f)) => e@ == bad_number_text(qid@, f@),
            _ => false,
        },
{
    match read {
        Ok(q) => Ok(ShowControlCommand::SelectCue(q)),
        Err(f) => {
            let mut e: String = "invalid cue qid '".to_owned();
            e.append(qid);
            e.append("': ");
            e.append(f.as_str());
            Err(e)
        },
    }
}

/// The playback command a peer's command stands for.
pub fn apply_api_command(command: ApiCommand, prepared: bool) -> (r: Result<
    ShowControlCommand,
    String,
>)
    ensures
        match (r, api_meaning(command, prepared)) {
            (Ok(c), Ok(d)) => c == d,
            (Err(e), Err(f)) => e@ == f,
            _ => false,
        },
{
    match command {
        ApiCommand::OpenProject => {
            if prepared {
                Ok(ShowControlCommand::OpenProject)
            } else {
                Err("project was not prepared by the API".to_owned())
            }
        },
        ApiCommand::SelectCue { qid } => select_command(qid.as_str(), Qid::read(qid.as_str())),
        ApiCommand::Go => Ok(ShowControlCommand::Go),
        ApiCommand::Stop => Ok(ShowControlCommand::Stop),
        ApiCommand::Pause => Ok(ShowControlCommand::Pause),
        ApiCommand::Resume => Ok(ShowControlCommand::Resume),
        ApiCommand::Preload => Ok(ShowControlCommand::Preload),
        ApiCommand::Seek { instance_id, seconds } => Ok(
            ShowControlCommand::Seek { instance_id, seconds },
        ),
        ApiCommand::Shutdown => Ok(ShowControlCommand::Shutdown),
    }
}

/// Whether a peer's command is taken at all: none is once the program is
/// shutting down.
pub fn api_rejection(shutting_down: bool) -> (r: Option<&'static str>)
    ensures
        slice_opt(r) == (if shutting_down {
            Some("shutdown is in progress"@)
        } else {
            None
        }),
{
    if shutting_down {
        Some("shutdown is in progress")
    } else {
        None
    }
}

/// What is going on, as far as it keeps a project from being replaced.
#[derive(Clone, Copy, PartialEq, Eq, Structural, Debug)]
pub struct Activity {
    pub cues: bool,
    pub show_clock: bool,
    pub engine_video: bool,
    pub video: bool,
    pub text: bool,
    pub pending_decode: bool,
    pub pixel_map: bool,
    pub timecode_follow: bool,
    pub recording: bool,
    pub lighting: bool,
}

impl Activity {
    pub open spec fn any(self) -> bool {
        self.cues || self.show_clock || self.engine_video || self.video || self.text
            || self.pending_decode || self.pixel_map || self.timecode_follow || self.recording
            || self.lighting
    }
}

pub fn show_control_is_active(activity: &Activity) -> (b: bool)
    ensures
        b == activity.any(),
{
    activity.cues || activity.show_clock || activity.engine_video || activity.video || activity.text
        || activity.pending_decode || activity.pixel_map || activity.timecode_follow
        || activity.recording || activity.lighting
}

/// What the playback is doing.
pub struct Playback {
    pub activity: Activity,
    pub paused: bool,
    /// Every playback that runs, the video's too.
    pub instances: Vec<u64>,
    /// The project that waits to be opened.
    pub project: String,
    /// The name under which the program runs.
    pub profile: String,
    /// The seconds to seek to, in print with three decimals.
    pub seek_text: String,
}

/// What the engine is to do.
#[derive(Debug)]
pub enum EngineWish {
    Nothing,
    OpenProject,
    Go,
    Stop,
    Pause,
    Resume,
    Preload,
    Seek { instance_id: u64, seconds: Single },
    Shutdown,
}

/// The selected cue, where there is one.
pub open spec fn selected(s: StateView) -> Option<Cue> {
    match s.selected_cue_id {
        Some(id) => {
            let i = position(s.show_file.cues, id@);
            if i < s.show_file.cues.len() {
                Some(s.show_file.cues[i as int])
            } else {
                None
            }
        },
        None => None,
    }
}

/// What a command comes to: the wish for the engine and what is said once it
/// is fulfilled, or why the command is refused.
pub open spec fn control_meaning(
    s: StateView,
    command: ShowControlCommand,
    p: Playback,
) -> Result<(EngineWish, Seq<char>), Seq<char>> {
    match command {
        ShowControlCommand::OpenProject => if p.activity.any() {
            Err("the current show is active; stop it before opening a project"@)
        } else {
            Ok((EngineWish::OpenProject, "opened project "@ + p.project@))
        },
        ShowControlCommand::SelectCue(id) => if has_cue(s.show_file.cues, id@) {
            Ok((EngineWish::Nothing, "selected cue Q"@ + id.text()))
        } else {
            Err(missing_text(id))
        },
        ShowControlCommand::Go => if selected(s) is Some {
            Ok((EngineWish::Go, "GO applied"@))
        } else {
            Err("no cue is selected"@)
        },
        ShowControlCommand::Stop => Ok((EngineWish::Stop, "all cues stopped"@)),
        ShowControlCommand::Pause => if p.paused {
            Err("playback is already paused"@)
        } else if !p.activity.show_clock {
            Err("playback is not running"@)
        } else {
            Ok((EngineWish::Pause, "playback paused"@))
        },
        ShowControlCommand::Resume => if !p.paused {
            Err("playback is not paused"@)
        } else {
            Ok((EngineWish::Resume, "playback resumed"@))
        },
        ShowControlCommand::Preload => match selected(s) {
            Some(cue) => if cue.kind is Sound || cue.kind is Video {
                Ok((EngineWish::Preload, "selected cue preloaded"@))
            } else {
                Err("preload is not supported for cue Q"@ + cue.base.qid.text())
            },
            None => Err("no cue is selected"@),
        },
        ShowControlCommand::Seek { instance_id, seconds } => if p.instances@.contains(instance_id) {
            Ok(
                (
                    EngineWish::Seek { instance_id, seconds },
                    "cue instance "@ + decimal(instance_id as nat) + " seeked to "@ + p.seek_text@
                        + "s"@,
                ),
            )
        } else {
            Err("cue instance "@ + decimal(instance_id as nat) + " is not active"@)
        },
        ShowControlCommand::Shutdown => match rejection(s.dirty, p.activity.any()) {
            Some(message) => Err(message),
            None => Ok((EngineWish::Shutdown, "profile '"@ + p.profile@ + "' accepted shutdown"@)),
        },
    }
}

fn runs(instances: &Vec<u64>, id: u64) -> (b: bool)
    ensures
        b == instances@.contains(id),
{
    let mut i: usize = 0;
    while i < instances.len()
        invariant
            i <= instances@.len(),
            forall|j: int| 0 <= j < i ==> instances@[j] != id,
        decreases instances@.len() - i,
    {
        if instances[i] == id {
            assert(instances@.contains(id));
            return true;
        }
        i = i + 1;
    }
    false
}

fn said(head: &str, middle: &str, tail: &str) -> (r: String)
    ensures
        r@ == head@ + middle@ + tail@,
{
    let mut r: String = head.to_owned();
    r.append(middle);
    r.append(tail);
    r
}

/// Whether a cue of the list is selected.
fn has_selection(state: &SharedState) -> (b: bool)
    ensures
        b == (selected(state@) is Some),
{
    match state.selected_cue() {
        Some(_) => true,
        None => {
            proof {
                if state@.selected_cue_id is Some {
                    crate::show::lemma_has_cue(
                        state@.show_file.cues,
                        state@.selected_cue_id->0@,
                    );
                }
            }
            false
        },
    }
}

/// Decide on a command for the playback. A selection is made at once; the rest
/// is a wish for the engine, and what to say once it is fulfilled.
pub fn execute_show_control(
    state: &mut SharedState,
    command: ShowControlCommand,
    p: &Playback,
) -> (r: Result<(EngineWish, String), String>)
    ensures
        match (r, control_meaning(old(state)@, command, *p)) {
            (Ok(a), Ok(b)) => a.0 == b.0 && a.1@ == b.1,
            (Err(e), Err(f)) => e@ == f,
            _ => false,
        },
        final(state)@ == (match command {
            ShowControlCommand::SelectCue(id) => if has_cue(old(state)@.show_file.cues, id@) {
                StateView { selected_cue_id: Some(id), ..old(state)@ }
            } else {
                old(state)@
            },
            _ => old(state)@,
        }),
{
    match command {
        ShowControlCommand::OpenProject => {
            if show_control_is_active(&p.activity) {
                return Err(
                    "the current show is active; stop it before opening a project".to_owned(),
                );
            }
            let mut m: String = "opened project ".to_owned();
            m.append(p.project.as_str());
            Ok((EngineWish::OpenProject, m))
        },
        ShowControlCommand::SelectCue(id) => match select_cue(state, id) {
            Ok(_) => {
                let mut m: String = "selected cue Q".to_owned();
                let number: String = id.to_text();
                m.append(number.as_str());
                Ok((EngineWish::Nothing, m))
            },
            Err(e) => Err(e),
        },
        ShowControlCommand::Go => {
            if has_selection(state) {
                Ok((EngineWish::Go, "GO applied".to_owned()))
            } else {
                Err("no cue is selected".to_owned())
            }
        },
        ShowControlCommand::Stop => Ok((EngineWish::Stop, "all cues stopped".to_owned())),
        ShowControlCommand::Pause => {
            if p.paused {
                Err("playback is already paused".to_owned())
            } else if !p.activity.show_clock {
                Err("playback is not running".to_owned())
            } else {
                Ok((EngineWish::Pause, "playback paused".to_owned()))
            }
        },
        ShowControlCommand::Resume => {
            if !p.paused {
                Err("playback is not paused".to_owned())
            } else {
                Ok((EngineWish::Resume, "playback resumed".to_owned()))
            }
        },
        ShowControlCommand::Preload => match state.selected_cue() {
            Some(cue) => {
                let playable: bool = match cue.kind {
                    CueKind::Sound { .. } => true,
                    CueKind::Video { .. } => true,
                    _ => false,
                };
                if playable {
                    Ok((EngineWish::Preload, "selected cue preloaded".to_owned()))
                } else {
                    let mut e: String = "preload is not supported for cue Q".to_owned();
                    let number: String = cue.base.qid.to_text();
                    e.append(number.as_str());
                    Err(e)
                }
            },
            None => {
                proof {
                    if state@.selected_cue_id is Some {
                        crate::show::lemma_has_cue(
                            state@.show_file.cues,
                            state@.selected_cue_id->0@,
                        );
                    }
                }
                Err("no cue is selected".to_owned())
            },
        },
        ShowControlCommand::Seek { instance_id, seconds } => {
            let mut m: String = "cue instance ".to_owned();
            push_decimal(&mut m, instance_id);
            if runs(&p.instances, instance_id) {
                m.append(" seeked to ");
                m.append(p.seek_text.as_str());
                m.append("s");
                Ok((EngineWish::Seek { instance_id, seconds }, m))
            } else {
                m.append(" is not active");
                Err(m)
            }
        },
        ShowControlCommand::Shutdown => match shutdown_rejection(
            state.dirty,
            show_control_is_active(&p.activity),
        ) {
            Some(message) => Err(message.to_owned()),
            None => Ok(
                (EngineWish::Shutdown, said("profile '", p.profile.as_str(), "' accepted shutdown")),
            ),
        },
    }
}

/// What a peer is answered: nothing is taken while the program shuts down.
pub open spec fn api_outcome(
    s: StateView,
    command: ApiCommand,
    prepared: bool,
    p: Playback,
    shutting_down: bool,
) -> Result<(EngineWish, Seq<char>), Seq<char>> {
    if shutting_down {
        Err("shutdown is in progress"@)
    } else {
        match api_meaning(command, prepared) {
            Ok(c) => control_meaning(s, c, p),
            Err(e) => Err(e),
        }
    }
}

/// The state once a peer's command was taken: only a selection changes it at
/// once.
pub open spec fn api_taken(
    s: StateView,
    command: ApiCommand,
    prepared: bool,
    shutting_down: bool,
) -> StateView {
    match api_meaning(command, prepared) {
        Ok(ShowControlCommand::SelectCue(id)) if !shutting_down && has_cue(
            s.show_file.cues,
            id@,
        ) => StateView { selected_cue_id: Some(id), ..s },
        _ => s,
    }
}

/// Take a peer's command: what the engine is to do and what the peer is
/// answered once that is done, or why the command is refused.
pub fn process_api_command(
    state: &mut SharedState,
    command: ApiCommand,
    prepared: bool,
    p: &Playback,
    shutting_down: bool,
) -> (r: Result<(EngineWish, String), String>)
    ensures
        match (r, api_outcome(old(state)@, command, prepared, *p, shutting_down)) {
            (Ok(a), Ok(b)) => a.0 == b.0 && a.1@ == b.1,
            (Err(e), Err(f)) => e@ == f,
            _ => false,
        },
        final(state)@ == api_taken(old(state)@, command, prepared, shutting_down),
{
    if let Some(message) = api_rejection(shutting_down) {
        return Err(message.to_owned());
    }
    match apply_api_command(command, prepared) {
        Ok(c) => execute_show_control(state, c, p),
        Err(e) => Err(e),
    }
}

/// A peer's command that is refused changes nothing.
pub proof fn refused_requests_change_nothing(
    s: StateView,
    command: ApiCommand,
    prepared: bool,
    p: Playback,
    shutting_down: bool,
)
    requires
        api_outcome(s, command, prepared, p, shutting_down) is Err,
    ensures
        api_taken(s, command, prepared, shutting_down) == s,
{
}

/// A running show is neither replaced nor shut down by a peer.
pub proof fn a_running_show_is_protected(s: StateView, p: Playback)
    requires
        p.activity.any(),
    ensures
        control_meaning(s, ShowControlCommand::OpenProject, p) is Err,
        control_meaning(s, ShowControlCommand::Shutdown, p) is Err,
{
}

/// Of pausing and resuming, never both are possible.
pub proof fn pause_and_resume_exclude_each_other(s: StateView, p: Playback)
    ensures
        control_meaning(s, ShowControlCommand::Pause, p) is Err || control_meaning(
            s,
            ShowControlCommand::Resume,
            p,
        ) is Err,
{
}

/// What the show engine is to do for a command of the queue.
#[derive(Debug)]
pub enum EngineStep {
    Done,
    Control(ShowControlCommand),
    /// A master volume command, for the module that owns it.
    Volume(AppCommand),
    ApplyAudio,
    ToggleOutputs,
    ToggleFullscreen,
    OpenOutputs,
    LightingPush { snapshot: Vec<(u32, rustjay_lighting::FixtureLook)> },
    RecordToggle { file: String },
    DiscardTake,
    RevertTake { file: String },
    SetMonitor(bool),
    Preview { file: String },
    StopPreview,
    ClearLive,
    Scrub { frame: Option<rustjay_lighting::MaskedFrame> },
    FrameStep,
    FrameStepBack,
    SetLevel { qid: Qid, volume: Single, pan: Single },
    /// The command is for the operator's windows.
    Unhandled(AppCommand),
}

/// What a command of the queue means for the engine.
pub open spec fn step_meaning(cmd: AppCommand, paused: bool) -> EngineStep {
    match cmd {
        AppCommand::SetMasterVolume(_) => EngineStep::Volume(cmd),
        AppCommand::QueryMasterVolume { .. } => EngineStep::Volume(cmd),
        AppCommand::Go => EngineStep::Control(ShowControlCommand::Go),
        AppCommand::Stop => EngineStep::Control(ShowControlCommand::Stop),
        AppCommand::Pause => EngineStep::Control(
            if paused {
                ShowControlCommand::Resume
            } else {
                ShowControlCommand::Pause
            },
        ),
        AppCommand::SetAudioDriver(_) => EngineStep::ApplyAudio,
        AppCommand::SetAudioDevice(_) => EngineStep::ApplyAudio,
        AppCommand::ApplyAudioSettings => EngineStep::ApplyAudio,
        AppCommand::Preload => EngineStep::Control(ShowControlCommand::Preload),
        AppCommand::ToggleVideoWindow => EngineStep::ToggleOutputs,
        AppCommand::ToggleVideoFullscreen => EngineStep::ToggleFullscreen,
        AppCommand::OpenProjectionOutputs => EngineStep::OpenOutputs,
        AppCommand::LearnMidiTrigger { .. } => EngineStep::Done,
        AppCommand::CaptureTimecodeTrigger { .. } => EngineStep::Done,
        AppCommand::LightingLivePush { snapshot } => EngineStep::LightingPush { snapshot },
        AppCommand::RecorderRecord { file } => EngineStep::RecordToggle { file },
        AppCommand::RecorderDiscard => EngineStep::DiscardTake,
        AppCommand::RecorderRevert { file } => EngineStep::RevertTake { file },
        AppCommand::RecorderSetMonitor(on) => EngineStep::SetMonitor(on),
        AppCommand::RecorderPreview { file } => EngineStep::Preview { file },
        AppCommand::RecorderStopPreview => EngineStep::StopPreview,
        AppCommand::RecorderClearLive => EngineStep::ClearLive,
        AppCommand::RecorderScrub { frame } => EngineStep::Scrub { frame },
        AppCommand::FrameStep => EngineStep::FrameStep,
        AppCommand::FrameStepBack => EngineStep::FrameStepBack,
        AppCommand::SeekCue { instance_id, secs } => EngineStep::Control(
            ShowControlCommand::Seek { instance_id, seconds: secs },
        ),
        AppCommand::SetCueLevel { qid, volume, pan } => EngineStep::SetLevel { qid, volume, pan },
        other => EngineStep::Unhandled(other),
    }
}

/// The state with another audio output in the project.
pub open spec fn audio_set(s: StateView, driver: AudioOutputDriver, device: String) -> StateView {
    StateView {
        show_file: ShowView {
            show_settings: ShowSettings {
                audio_output_driver: driver,
                audio_output_device: device,
                ..s.show_file.show_settings
            },
            ..s.show_file
        },
        dirty: true,
        ..s
    }
}

fn set_audio(state: &mut SharedState, driver: AudioOutputDriver, device: String)
    ensures
        final(state)@ == audio_set(old(state)@, driver, device),
{
    state.show_file.show_settings.audio_output_driver = driver;
    state.show_file.show_settings.audio_output_device = device;
    state.dirty = true;
}

/// Whether `t` is what a command of the queue makes of the state.
pub open spec fn step_effect(s: StateView, cmd: AppCommand, t: StateView) -> bool {
    match cmd {
        AppCommand::SetAudioDriver(driver) => {
            let device = t.show_file.show_settings.audio_output_device;
            device@ == ""@ && t == audio_set(s, driver, device)
        },
        AppCommand::SetAudioDevice(name) => t == audio_set(
            s,
            s.show_file.show_settings.audio_output_driver,
            name,
        ),
        AppCommand::LearnMidiTrigger { qid } => t == (StateView {
            pending_midi_learn: Some(qid),
            ..s
        }),
        AppCommand::CaptureTimecodeTrigger { qid } => t == (StateView {
            pending_timecode_capture: Some(qid),
            ..s
        }),
        _ => t == s,
    }
}

/// Take a command of the queue for the engine.
pub fn process_engine_command(state: &mut SharedState, cmd: AppCommand, paused: bool) -> (step:
    EngineStep)
    ensures
        step == step_meaning(cmd, paused),
        step_effect(old(state)@, cmd, final(state)@),
{
    match cmd {
        AppCommand::SetMasterVolume(v) => EngineStep::Volume(AppCommand::SetMasterVolume(v)),
        AppCommand::QueryMasterVolume { reply_to, request_id } => EngineStep::Volume(
            AppCommand::QueryMasterVolume { reply_to, request_id },
        ),
        AppCommand::Go => EngineStep::Control(ShowControlCommand::Go),
        AppCommand::Stop => EngineStep::Control(ShowControlCommand::Stop),
        AppCommand::Pause => {
            if paused {
                EngineStep::Control(ShowControlCommand::Resume)
            } else {
                EngineStep::Control(ShowControlCommand::Pause)
            }
        },
        AppCommand::SetAudioDriver(driver) => {
            set_audio(state, driver, "".to_owned());
            EngineStep::ApplyAudio
        },
        AppCommand::SetAudioDevice(name) => {
            let driver: AudioOutputDriver = state.show_file.show_settings.audio_output_driver;
            set_audio(state, driver, name);
            EngineStep::ApplyAudio
        },
        AppCommand::ApplyAudioSettings => EngineStep::ApplyAudio,
        AppCommand::Preload => EngineStep::Control(ShowControlCommand::Preload),
        AppCommand::ToggleVideoWindow => EngineStep::ToggleOutputs,
        AppCommand::ToggleVideoFullscreen => EngineStep::ToggleFullscreen,
        AppCommand::OpenProjectionOutputs => EngineStep::OpenOutputs,
        AppCommand::LearnMidiTrigger { qid } => {
            state.pending_midi_learn = Some(qid);
            EngineStep::Done
        },
        AppCommand::CaptureTimecodeTrigger { qid } => {
            state.pending_timecode_capture = Some(qid);
            EngineStep::Done
        },
        AppCommand::LightingLivePush { snapshot } => EngineStep::LightingPush { snapshot },
        AppCommand::RecorderRecord { file } => EngineStep::RecordToggle { file },
        AppCommand::RecorderDiscard => EngineStep::DiscardTake,
        AppCommand::RecorderRevert { file } => EngineStep::RevertTake { file },
        AppCommand::RecorderSetMonitor(on) => EngineStep::SetMonitor(on),
        AppCommand::RecorderPreview { file } => EngineStep::Preview { file },
        AppCommand::RecorderStopPreview => EngineStep::StopPreview,
        AppCommand::RecorderClearLive => EngineStep::ClearLive,
        AppCommand::RecorderScrub { frame } => EngineStep::Scrub { frame },
        AppCommand::FrameStep => EngineStep::FrameStep,
        AppCommand::FrameStepBack => EngineStep::FrameStepBack,
        AppCommand::SeekCue { instance_id, secs } => EngineStep::Control(
            ShowControlCommand::Seek { instance_id, seconds: secs },
        ),
        AppCommand::SetCueLevel { qid, volume, pan } => EngineStep::SetLevel { qid, volume, pan },
        other => EngineStep::Unhandled(other),
    }
}

/// Every command is for exactly one side: what the engine leaves on the queue
/// is what the operator's windows take, but for toggling the projection
/// window, which neither takes.
pub proof fn every_command_has_a_taker(s: StateView, cmd: AppCommand, paused: bool)
    ensures
        step_meaning(cmd, paused) is Unhandled <==> (cmd.is_cue_edit() || cmd is NewProject
            || cmd is OpenProject || cmd is SaveProject || cmd is SaveProjectAs
            || cmd is PackProject || cmd is SelectCue || cmd is SelectPreviousCue
            || cmd is SelectNextCue || cmd is SelectFirstCue || cmd is SelectLastCue
            || cmd is ToggleProjectionWindow),
{
}

/// What the operator is told where the configured audio output fails.
pub open spec fn audio_failure(driver: Seq<char>, device: Seq<char>, error: Seq<char>) -> Seq<char> {
    "configured "@ + driver + " output device '"@ + (if device.len() == 0 {
        "<default>"@
    } else {
        device
    }) + "' failed: "@ + error
}

pub fn configured_audio_error(driver: &str, device: &str, error: &str) -> (r: String)
    ensures
        r@ == audio_failure(driver@, device@, error@),
{
    let mut r: String = "configured ".to_owned();
    r.append(driver);
    r.append(" output device '");
    if device.is_empty() {
        r.append("<default>");
    } else {
        r.append(device);
    }
    r.append("' failed: ");
    r.append(error);
    r
}

/// Whether the audio output that runs, if any, is the one the settings ask
/// for: the same driver, and the same device unless any will do.
pub open spec fn output_current(s: StateView, running: Option<(AudioOutputDriver, Seq<char>)>) -> bool {
    let settings = s.show_file.show_settings;
    s.audio_error is None && match running {
        Some((driver, device)) => driver == settings.audio_output_driver && (
        settings.audio_output_device@.len() == 0 || settings.audio_output_device@ == device),
        None => false,
    }
}

pub fn audio_output_current(
    state: &SharedState,
    running: Option<(AudioOutputDriver, &str)>,
) -> (b: bool)
    ensures
        b == output_current(
            state@,
            match running {
                Some((driver, device)) => Some((driver, device@)),
                None => None,
            },
        ),
{
    if state.audio_error.is_some() {
        return false;
    }
    let settings: &ShowSettings = &state.show_file.show_settings;
    match running {
        Some((driver, device)) => driver == settings.audio_output_driver && (
        settings.audio_output_device.as_str().is_empty() || same(
            settings.audio_output_device.as_str(),
            device,
        )),
        None => false,
    }
}

/// The state once an audio output was opened. A driver without a default
/// device has the one that was opened written into the project, so that the
/// same one is asked for next time.
pub open spec fn output_opened(s: StateView, driver: AudioOutputDriver, device: String) -> StateView {
    let t = StateView { audio_device_name: device@, audio_error: None, ..s };
    if driver == AudioOutputDriver::ASIO && s.show_file.show_settings.audio_output_device@.len()
        == 0 {
        StateView {
            show_file: ShowView {
                show_settings: ShowSettings {
                    audio_output_device: device,
                    ..s.show_file.show_settings
                },
                ..s.show_file
            },
            dirty: true,
            ..t
        }
    } else {
        t
    }
}

pub fn note_audio_opened(state: &mut SharedState, driver: AudioOutputDriver, device: String)
    ensures
        final(state)@ == output_opened(old(state)@, driver, device),
{
    state.audio_device_name = device.clone();
    state.audio_error = None;
    if driver == AudioOutputDriver::ASIO
        && state.show_file.show_settings.audio_output_device.as_str().is_empty() {
        state.show_file.show_settings.audio_output_device = device;
        state.dirty = true;
    }
}

/// The state once an audio output could not be opened: the operator sees why,
/// and the settings.
pub open spec fn output_failed(
    s: StateView,
    driver: Seq<char>,
    device: Seq<char>,
    error: Seq<char>,
) -> StateView {
    StateView {
        audio_device_name: if device.len() == 0 {
            "<default>"@
        } else {
            device
        },
        audio_error: Some(audio_failure(driver, device, error)),
        panels: Panels { settings: true, ..s.panels },
        ..s
    }
}

pub fn note_audio_failed(state: &mut SharedState, driver: &str, device: &str, error: &str)
    ensures
        final(state)@ == output_failed(old(state)@, driver@, device@, error@),
{
    state.audio_device_name = if device.is_empty() {
        "<default>".to_owned()
    } else {
        device.to_owned()
    };
    state.audio_error = Some(configured_audio_error(driver, device, error));
    state.panels.settings = true;
}

/// A port number as it is used: the low sixteen bits of the setting.
pub open spec fn port(setting: i32) -> u16 {
    (setting as int % 0x1_0000) as u16
}

/// The ports to listen on and to send to. A machine that is remote controlled
/// and not the host uses them the other way round.
pub open spec fn osc_ports(rx: i32, tx: i32, remote_control: bool, host: bool) -> (u16, u16) {
    if remote_control && !host {
        (port(tx), port(rx))
    } else {
        (port(rx), port(tx))
    }
}

fn port_of(setting: i32) -> (p: u16)
    ensures
        p == port(setting),
{
    let wide: i64 = setting as i64 + 0x8000_0000;
    assert((setting as int + 0x8000_0000) % 0x1_0000 == setting as int % 0x1_0000);
    (wide % 0x1_0000) as u16
}

pub fn osc_endpoints(rx: i32, tx: i32, remote_control: bool, host: bool) -> (r: (u16, u16))
    ensures
        r == osc_ports(rx, tx, remote_control, host),
{
    if remote_control && !host {
        (port_of(tx), port_of(rx))
    } else {
        (port_of(rx), port_of(tx))
    }
}

/// A host and a machine it controls, with the same settings, hear each other:
/// each sends to the port on which the other listens.
pub proof fn host_and_remote_ports_meet(rx: i32, tx: i32)
    ensures
        osc_ports(rx, tx, true, true).0 == osc_ports(rx, tx, true, false).1,
        osc_ports(rx, tx, true, true).1 == osc_ports(rx, tx, true, false).0,
{
}

/// The decoder library's version, packed into one number, in print.
pub fn decoder_version_text(packed: u32) -> (r: String)
    ensures
        r@ == "libavutil "@ + decimal((packed / 0x1_0000) as nat) + "."@ + decimal(
            (packed / 0x100 % 0x100) as nat,
        ) + "."@ + decimal((packed % 0x100) as nat),
{
    let mut r: String = "libavutil ".to_owned();
    push_decimal(&mut r, (packed / 0x1_0000) as u64);
    r.append(".");
    push_decimal(&mut r, (packed / 0x100 % 0x100) as u64);
    r.append(".");
    push_decimal(&mut r, (packed % 0x100) as u64);
    r
}

/// A peer's command stands for the playback command of its name; only a cue
/// number that cannot be read and a project that is not ready stand for none.
pub proof fn a_peer_is_understood(
    command: ApiCommand,
    prepared: bool,
    r: Result<ShowControlCommand, String>,
)
    requires
        call_ensures(apply_api_command, (command, prepared), r),
    ensures
        command is OpenProject && prepared ==> r is Ok && r->Ok_0 is OpenProject,
        command is OpenProject && !prepared ==> r is Err && r->Err_0@
            == "project was not prepared by the API"@,
        command is Go ==> r is Ok && r->Ok_0 is Go,
        command is Stop ==> r is Ok && r->Ok_0 is Stop,
        command is Pause ==> r is Ok && r->Ok_0 is Pause,
        command is Resume ==> r is Ok && r->Ok_0 is Resume,
        command is Preload ==> r is Ok && r->Ok_0 is Preload,
        command is Shutdown ==> r is Ok && r->Ok_0 is Shutdown,
        command matches ApiCommand::Seek { instance_id, seconds } ==> r == Ok::<
            ShowControlCommand,
            String,
        >(ShowControlCommand::Seek { instance_id, seconds }),
        command matches ApiCommand::SelectCue { qid } ==> {
            &&& r is Ok <==> decimal_reading(qid@) is Ok
            &&& r is Ok ==> r->Ok_0 is SelectCue && r->Ok_0->SelectCue_0 == parsed_qid(qid@)->0
            &&& r is Err ==> r->Err_0@ == "invalid cue qid '"@ + qid@ + "': "@ + decimal_reading(
                qid@,
            )->Err_0
        },
{
}

/// A number that was read selects that cue; one that was not is told of.
pub proof fn a_read_number_is_selected(
    qid: &str,
    read: Result<Qid, String>,
    r: Result<ShowControlCommand, String>,
)
    requires
        call_ensures(select_command, (qid, read), r),
    ensures
        read is Ok ==> r is Ok && r->Ok_0 == ShowControlCommand::SelectCue(read->Ok_0),
        read is Err ==> r is Err && r->Err_0@ == "invalid cue qid '"@ + qid@ + "': "@
            + read->Err_0@,
{
}

/// Nothing is taken from a peer while the program shuts down, and everything is
/// looked at before.
pub proof fn peers_are_turned_away_at_the_end(shutting_down: bool, r: Option<&'static str>)
    requires
        call_ensures(api_rejection, (shutting_down,), r),
    ensures
        r is Some <==> shutting_down,
        r is Some ==> r->0@ == "shutdown is in progress"@,
{
}

/// A show is active while anything of it is.
pub proof fn a_show_is_active_while_anything_is(a: &Activity, b: bool)
    requires
        call_ensures(show_control_is_active, (a,), b),
    ensures
        a.cues ==> b,
        a.show_clock ==> b,
        a.engine_video ==> b,
        a.video ==> b,
        a.text ==> b,
        a.pending_decode ==> b,
        a.pixel_map ==> b,
        a.timecode_follow ==> b,
        a.recording ==> b,
        a.lighting ==> b,
        !a.cues && !a.show_clock && !a.engine_video && !a.video && !a.text && !a.pending_decode
            && !a.pixel_map && !a.timecode_follow && !a.recording && !a.lighting ==> !b,
{
}

/// Each command comes to the wish of its name, or is refused for a reason that
/// holds; only a selection changes the state.
pub proof fn commands_become_wishes(
    state: &mut SharedState,
    command: ShowControlCommand,
    p: &Playback,
    r: Result<(EngineWish, String), String>,
)
    requires
        call_ensures(execute_show_control, (state, command, p), r),
    ensures
        ({
            let s = old(state)@;
            let t = final(state)@;
            let a = p.activity;
            let active = a.cues || a.show_clock || a.engine_video || a.video || a.text
                || a.pending_decode || a.pixel_map || a.timecode_follow || a.recording
                || a.lighting;
            &&& command is OpenProject ==> (if active {
                r is Err && r->Err_0@
                    == "the current show is active; stop it before opening a project"@
            } else {
                r is Ok && (r->Ok_0).0 is OpenProject && (r->Ok_0).1@ == "opened project "@
                    + p.project@
            })
            &&& command is Stop ==> r is Ok && (r->Ok_0).0 is Stop && (r->Ok_0).1@
                == "all cues stopped"@
            &&& command is Go && r is Ok ==> (r->Ok_0).0 is Go && (r->Ok_0).1@ == "GO applied"@
            &&& command is Go && s.selected_cue_id is None ==> r is Err && r->Err_0@
                == "no cue is selected"@
            &&& command is Pause ==> (if p.paused {
                r is Err && r->Err_0@ == "playback is already paused"@
            } else if !a.show_clock {
                r is Err && r->Err_0@ == "playback is not running"@
            } else {
                r is Ok && (r->Ok_0).0 is Pause && (r->Ok_0).1@ == "playback paused"@
            })
            &&& command is Resume ==> (if p.paused {
                r is Ok && (r->Ok_0).0 is Resume && (r->Ok_0).1@ == "playback resumed"@
            } else {
                r is Err && r->Err_0@ == "playback is not paused"@
            })
            &&& command is Preload && r is Ok ==> (r->Ok_0).0 is Preload
            &&& command is Preload && s.selected_cue_id is None ==> r is Err && r->Err_0@
                == "no cue is selected"@
            &&& command matches ShowControlCommand::Seek { instance_id, seconds } ==> {
                &&& r is Ok <==> p.instances@.contains(instance_id)
                &&& r is Ok ==> (r->Ok_0).0 == (EngineWish::Seek { instance_id, seconds })
            }
            &&& command is Shutdown ==> (if active || s.dirty {
                r is Err
            } else {
                r is Ok && (r->Ok_0).0 is Shutdown && (r->Ok_0).1@ == "profile '"@ + p.profile@
                    + "' accepted shutdown"@
            })
            &&& command matches ShowControlCommand::SelectCue(id) ==> {
                &&& r is Ok ==> (r->Ok_0).0 is Nothing && t.selected_cue_id == Some(id)
                    && (r->Ok_0).1@ == "selected cue Q"@ + id.text()
                &&& r is Err ==> t == s && r->Err_0@ == "cue Q"@ + id.text() + " not found"@
            }
            &&& !(command is SelectCue) ==> t == s
            &&& t.show_file == s.show_file
            &&& t.dirty == s.dirty
            &&& t.command_queue == s.command_queue
        }),
{
}

/// Go and a selection succeed where their cue is there, and preloading where
/// the selected cue has sound or a picture.
pub proof fn commands_succeed_where_their_cue_is(
    state: &mut SharedState,
    command: ShowControlCommand,
    p: &Playback,
    r: Result<(EngineWish, String), String>,
    id: Qid,
    k: int,
)
    requires
        call_ensures(execute_show_control, (state, command, p), r),
        crate::commands::first_row(old(state)@.show_file.cues, id@, k),
        match command {
            ShowControlCommand::SelectCue(q) => q == id,
            _ => old(state)@.selected_cue_id == Some(id),
        },
    ensures
        command is SelectCue ==> r is Ok,
        command is Go ==> r is Ok,
        command is Preload ==> {
            let cue = old(state)@.show_file.cues[k];
            &&& r is Ok <==> cue.kind is Sound || cue.kind is Video
            &&& r is Err ==> r->Err_0@ == "preload is not supported for cue Q"@
                + cue.base.qid.text()
        },
{
    crate::commands::lemma_first_row(old(state)@.show_file.cues, id@, k);
}

/// A peer is answered as the operator would be; while the program shuts down it
/// is refused, and nothing changes.
pub proof fn peers_are_answered(
    state: &mut SharedState,
    command: ApiCommand,
    prepared: bool,
    p: &Playback,
    shutting_down: bool,
    r: Result<(EngineWish, String), String>,
)
    requires
        call_ensures(process_api_command, (state, command, prepared, p, shutting_down), r),
    ensures
        ({
            let s = old(state)@;
            let t = final(state)@;
            &&& shutting_down ==> r is Err && r->Err_0@ == "shutdown is in progress"@ && t == s
            &&& r is Err ==> t == s
            &&& !(command is SelectCue) ==> t == s
            &&& r is Ok ==> {
                let w = (r->Ok_0).0;
                &&& w is Go <==> command is Go
                &&& w is Stop <==> command is Stop
                &&& w is Pause <==> command is Pause
                &&& w is Resume <==> command is Resume
                &&& w is Preload <==> command is Preload
                &&& w is OpenProject <==> command is OpenProject
                &&& w is Shutdown <==> command is Shutdown
                &&& w is Nothing <==> command is SelectCue
                &&& w is Seek <==> command is Seek
                &&& command matches ApiCommand::Seek { instance_id, seconds } ==> w == (
                EngineWish::Seek { instance_id, seconds })
                &&& command matches ApiCommand::SelectCue { qid } ==> t.selected_cue_id
                    == Some(parsed_qid(qid@)->0)
                &&& command is OpenProject ==> prepared
            }
            &&& !shutting_down && command is Stop ==> r is Ok
            &&& !shutting_down && command is Resume && p.paused ==> r is Ok
            &&& t.show_file == s.show_file
        }),
{
}

/// Each command of the queue that is for the engine leads to the step of its
/// name with what it holds; pausing again goes on.
pub proof fn queued_commands_lead_to_their_step(
    state: &mut SharedState,
    cmd: AppCommand,
    paused: bool,
    step: EngineStep,
)
    requires
        call_ensures(process_engine_command, (state, cmd, paused), step),
    ensures
        cmd is Go <==> step is Control && step->Control_0 is Go,
        cmd is Stop <==> step is Control && step->Control_0 is Stop,
        cmd is Pause && paused <==> step is Control && step->Control_0 is Resume,
        cmd is Pause && !paused <==> step is Control && step->Control_0 is Pause,
        cmd is Preload <==> step is Control && step->Control_0 is Preload,
        cmd matches AppCommand::SeekCue { instance_id, secs } ==> step == EngineStep::Control(
            ShowControlCommand::Seek { instance_id, seconds: secs },
        ),
        cmd is SetMasterVolume || cmd is QueryMasterVolume <==> step is Volume,
        step is Volume ==> step->Volume_0 == cmd,
        cmd is SetAudioDriver || cmd is SetAudioDevice || cmd is ApplyAudioSettings
            <==> step is ApplyAudio,
        cmd is ToggleVideoWindow <==> step is ToggleOutputs,
        cmd is ToggleVideoFullscreen <==> step is ToggleFullscreen,
        cmd is OpenProjectionOutputs <==> step is OpenOutputs,
        cmd matches AppCommand::LightingLivePush { snapshot } ==> step == (
        EngineStep::LightingPush { snapshot }),
        cmd matches AppCommand::RecorderRecord { file } ==> step == (EngineStep::RecordToggle {
            file,
        }),
        cmd is RecorderDiscard <==> step is DiscardTake,
        cmd matches AppCommand::RecorderRevert { file } ==> step == (EngineStep::RevertTake {
            file,
        }),
        cmd matches AppCommand::RecorderSetMonitor(on) ==> step == EngineStep::SetMonitor(on),
        cmd matches AppCommand::RecorderPreview { file } ==> step == (EngineStep::Preview {
            file,
        }),
        cmd is RecorderStopPreview <==> step is StopPreview,
        cmd is RecorderClearLive <==> step is ClearLive,
        cmd matches AppCommand::RecorderScrub { frame } ==> step == (EngineStep::Scrub { frame }),
        cmd is FrameStep <==> step is FrameStep,
        cmd is FrameStepBack <==> step is FrameStepBack,
        cmd matches AppCommand::SetCueLevel { qid, volume, pan } ==> step == (
        EngineStep::SetLevel { qid, volume, pan }),
        cmd is LearnMidiTrigger || cmd is CaptureTimecodeTrigger <==> step is Done,
        step is Unhandled ==> step->Unhandled_0 == cmd,
{
}

/// Commands of the queue change the state only where they are about it: the
/// audio output of the project, and which cue waits for a trigger.
pub proof fn queued_commands_change_what_they_are_about(
    state: &mut SharedState,
    cmd: AppCommand,
    paused: bool,
    step: EngineStep,
)
    requires
        call_ensures(process_engine_command, (state, cmd, paused), step),
    ensures
        ({
            let s = old(state)@;
            let t = final(state)@;
            let was = s.show_file.show_settings;
            let now = t.show_file.show_settings;
            &&& cmd matches AppCommand::SetAudioDriver(driver) ==> now.audio_output_driver
                == driver && now.audio_output_device@ == ""@ && t.dirty
            &&& cmd matches AppCommand::SetAudioDevice(name) ==> now.audio_output_driver
                == was.audio_output_driver && now.audio_output_device == name && t.dirty
            &&& cmd matches AppCommand::LearnMidiTrigger { qid } ==> t.pending_midi_learn == Some(
                qid,
            ) && t.show_file == s.show_file
            &&& cmd matches AppCommand::CaptureTimecodeTrigger { qid }
                ==> t.pending_timecode_capture == Some(qid) && t.show_file == s.show_file
            &&& !(cmd is LearnMidiTrigger) ==> t.pending_midi_learn == s.pending_midi_learn
            &&& !(cmd is CaptureTimecodeTrigger) ==> t.pending_timecode_capture
                == s.pending_timecode_capture
            &&& !(cmd is SetAudioDriver || cmd is SetAudioDevice) ==> t.show_file == s.show_file
                && t.dirty == s.dirty
            &&& now.node_name == was.node_name
            &&& now.is_remote_host == was.is_remote_host
            &&& t.show_file.cues == s.show_file.cues
            &&& t.selected_cue_id == s.selected_cue_id
            &&& t.command_queue == s.command_queue
            &&& t.undo_redo == s.undo_redo
        }),
{
}

/// An audio output is current where it runs without an error, on the driver the
/// project asks for and on its device, or on any where it names none.
pub proof fn an_output_is_current_where_it_is_asked_for(
    state: &SharedState,
    running: Option<(AudioOutputDriver, &str)>,
    b: bool,
)
    requires
        call_ensures(audio_output_current, (state, running), b),
    ensures
        ({
            let wanted = state@.show_file.show_settings;
            &&& state@.audio_error is Some ==> !b
            &&& running is None ==> !b
            &&& state@.audio_error is None && running is Some ==> (b <==> (running->0).0
                == wanted.audio_output_driver && (wanted.audio_output_device@.len() == 0
                || wanted.audio_output_device@ == (running->0).1@))
        }),
{
}

/// An output that was opened is named, and no error is left; only a driver
/// without a default device has it written into a project that names none.
pub proof fn an_opened_output_is_named(
    state: &mut SharedState,
    driver: AudioOutputDriver,
    device: String,
)
    requires
        call_ensures(note_audio_opened, (state, driver, device), ()),
    ensures
        ({
            let s = old(state)@;
            let t = final(state)@;
            let written = driver is ASIO && s.show_file.show_settings.audio_output_device@.len()
                == 0;
            &&& t.audio_device_name == device@
            &&& t.audio_error is None
            &&& written ==> t.show_file.show_settings.audio_output_device == device && t.dirty
            &&& !written ==> t.show_file == s.show_file && t.dirty == s.dirty
            &&& t.show_file.cues == s.show_file.cues
            &&& t.panels == s.panels
        }),
{
}

/// An output that failed is named with its error, and the settings come up.
pub proof fn a_failed_output_is_named(
    state: &mut SharedState,
    driver: &str,
    device: &str,
    error: &str,
)
    requires
        call_ensures(note_audio_failed, (state, driver, device, error), ()),
    ensures
        ({
            let t = final(state)@;
            let name = if device@.len() == 0 {
                "<default>"@
            } else {
                device@
            };
            &&& t.audio_device_name == name
            &&& t.audio_error == Some(
                "configured "@ + driver@ + " output device '"@ + name + "' failed: "@ + error@,
            )
            &&& t.panels.settings
            &&& t.panels.log == old(state)@.panels.log
            &&& t.panels.video == old(state)@.panels.video
            &&& t.show_file == old(state)@.show_file
            &&& t.dirty == old(state)@.dirty
        }),
{
}

/// A machine listens on its receiving port and sends to its sending port, and
/// the other way round where it is controlled by a host.
pub proof fn ports_are_swapped_under_a_host(
    rx: i32,
    tx: i32,
    remote: bool,
    host: bool,
    r: (u16, u16),
)
    requires
        call_ensures(osc_endpoints, (rx, tx, remote, host), r),
        0 <= rx < 0x1_0000,
        0 <= tx < 0x1_0000,
    ensures
        !remote || host ==> r.0 == rx && r.1 == tx,
        remote && !host ==> r.0 == tx && r.1 == rx,
{
}

/// A packed version is told in its three parts.
pub proof fn a_packed_version_has_three_parts(a: u32, b: u32, c: u32, r: String)
    requires
        a < 0x1_0000,
        b < 0x100,
        c < 0x100,
        call_ensures(decoder_version_text, ((a * 0x1_0000 + b * 0x100 + c) as u32,), r),
    ensures
        r@ == "libavutil "@ + decimal(a as nat) + "."@ + decimal(b as nat) + "."@ + decimal(
            c as nat,
        ),
{
    let p = (a * 0x1_0000 + b * 0x100 + c) as u32;
    assert(p / 0x1_0000 == a);
    assert(p / 0x100 == a * 0x100 + b);
    assert(p / 0x100 % 0x100 == b);
    assert(p % 0x100 == c);
}

/// A failed audio output is told by its driver, its device and the error.
pub proof fn an_output_failure_is_put_in_words(driver: &str, device: &str, error: &str, r: String)
    requires
        call_ensures(configured_audio_error, (driver, device, error), r),
    ensures
        device@.len() > 0 ==> r@ == "configured "@ + driver@ + " output device '"@ + device@
            + "' failed: "@ + error@,
        device@.len() == 0 ==> r@ == "configured "@ + driver@ + " output device '"@ + "<default>"@
            + "' failed: "@ + error@,
{
}

} // verus!

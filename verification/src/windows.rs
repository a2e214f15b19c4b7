//! The windows' events: what each leads to, by the window it belongs to.

use vstd::prelude::*;

use crate::desk::{set_window, window_set, DeskWindow};
use crate::pacing::{
    control_key, control_key_of, output_hotkey, output_key, ControlKey, KeyPress, OutputKey,
    WindowRole,
};
use crate::published::close_requested;
use crate::state::{SharedState, StateView};

verus! {

/// What happened to a window.
pub enum WindowInput {
    CloseRequested,
    Resized(u32, u32),
    /// A file was dropped on it.
    DroppedFile,
    RedrawRequested,
    /// A key was pressed; `consumed` tells that a field of the window took it.
    Key { key: KeyPress, consumed: bool },
    Other,
}

/// What an event of a window leads to.
#[derive(Clone, Copy, PartialEq, Eq, Structural, Debug)]
pub enum WindowStep {
    Nothing,
    /// The program ends.
    Exit,
    /// The window's surface is set up for its new size.
    Configure(u32, u32),
    /// The dropped file is taken.
    TakeFile,
    Draw,
    /// Switch the outputs to full screen and back, and open them first where
    /// none is open.
    ToggleOutputs { open_first: bool },
    /// Fire the first cue that has the key.
    Hotkey,
    /// The window goes.
    Discard,
    /// The window is drawn when it comes to it.
    RequestDraw,
    /// What a key does in an output window.
    OutputKey(OutputKey),
    /// The thread that draws the output is told its size.
    TellSize(u32, u32),
}

/// The windows as far as events depend on them.
#[derive(Clone, Copy, PartialEq, Eq, Structural, Debug)]
pub struct WindowFacts {
    /// Cues run.
    pub active_cues: bool,
    /// How many outputs are open.
    pub outputs: usize,
    /// The window is one of the open outputs, and fills its screen.
    pub is_open: bool,
    pub fullscreen: bool,
    /// The event changes what the window shows.
    pub repaint: bool,
}

/// What an event of the control window leads to.
pub open spec fn control_step(s: StateView, event: WindowInput, w: WindowFacts) -> WindowStep {
    match event {
        WindowInput::CloseRequested => if s.dirty || w.active_cues {
            WindowStep::Nothing
        } else {
            WindowStep::Exit
        },
        WindowInput::Resized(width, height) => if width > 0 && height > 0 {
            WindowStep::Configure(width, height)
        } else {
            WindowStep::Nothing
        },
        WindowInput::DroppedFile => WindowStep::TakeFile,
        WindowInput::RedrawRequested => WindowStep::Draw,
        WindowInput::Key { key, consumed } => if consumed {
            WindowStep::Nothing
        } else {
            match control_key_of(key) {
                ControlKey::ToggleOutputs => WindowStep::ToggleOutputs {
                    open_first: w.outputs == 0,
                },
                ControlKey::Hotkey => WindowStep::Hotkey,
                ControlKey::Ignored => WindowStep::Nothing,
            }
        },
        WindowInput::Other => WindowStep::Nothing,
    }
}

/// What an event of the status window leads to. It is drawn again after it
/// was set up for a new size.
pub open spec fn status_window_step(event: WindowInput, w: WindowFacts) -> WindowStep {
    match event {
        WindowInput::CloseRequested => WindowStep::Discard,
        WindowInput::Resized(width, height) => if width > 0 && height > 0 {
            WindowStep::Configure(width, height)
        } else {
            WindowStep::RequestDraw
        },
        WindowInput::RedrawRequested => WindowStep::Draw,
        _ => if w.repaint {
            WindowStep::RequestDraw
        } else {
            WindowStep::Nothing
        },
    }
}

/// What a key does in an output window.
pub open spec fn output_key_of(key: KeyPress, w: WindowFacts) -> OutputKey {
    OutputKey {
        fullscreen: if !w.is_open {
            None
        } else if key.escape {
            Some(false)
        } else if key.f11 || (key.letter_f && key.command) {
            Some(!w.fullscreen)
        } else {
            None
        },
        hotkey: output_hotkey(key),
    }
}

/// What an event of an output window leads to. A field that takes keys is none
/// of its parts.
pub open spec fn output_step(event: WindowInput, w: WindowFacts) -> WindowStep {
    match event {
        WindowInput::CloseRequested => WindowStep::Discard,
        WindowInput::Resized(width, height) => if w.is_open {
            WindowStep::TellSize(width, height)
        } else {
            WindowStep::Nothing
        },
        WindowInput::Key { key, .. } => WindowStep::OutputKey(output_key_of(key, w)),
        _ => WindowStep::Nothing,
    }
}

/// What an event leads to. Nothing does without a window it belongs to.
pub open spec fn window_step(
    s: StateView,
    role: Option<WindowRole>,
    event: WindowInput,
    w: WindowFacts,
) -> WindowStep {
    match role {
        Some(WindowRole::Control) => control_step(s, event, w),
        Some(WindowRole::Status) => status_window_step(event, w),
        Some(WindowRole::Output) => output_step(event, w),
        _ => WindowStep::Nothing,
    }
}

/// Whether the last output goes with this one.
pub open spec fn last_output(w: WindowFacts) -> bool {
    w.outputs == 0 || (w.outputs == 1 && w.is_open)
}

/// The state once an event is over: a close that would lose work asks first, a
/// closed status window is off, and so is the video window with its last
/// output.
pub open spec fn window_taken(
    s: StateView,
    role: Option<WindowRole>,
    event: WindowInput,
    w: WindowFacts,
) -> StateView {
    if !(event is CloseRequested) {
        s
    } else {
        match role {
            Some(WindowRole::Control) => if s.dirty || w.active_cues {
                StateView { pending_close_confirm: true, ..s }
            } else {
                s
            },
            Some(WindowRole::Status) => window_set(s, DeskWindow::Status, false),
            Some(WindowRole::Output) => if last_output(w) {
                window_set(s, DeskWindow::Video, false)
            } else {
                s
            },
            _ => s,
        }
    }
}

fn control_event(state: &mut SharedState, event: &WindowInput, w: &WindowFacts) -> (r: WindowStep)
    ensures
        r == control_step(old(state)@, *event, *w),
        final(state)@ == window_taken(old(state)@, Some(WindowRole::Control), *event, *w),
{
    match event {
        WindowInput::CloseRequested => {
            if close_requested(state, w.active_cues) {
                WindowStep::Exit
            } else {
                WindowStep::Nothing
            }
        },
        WindowInput::Resized(width, height) => {
            if crate::pacing::size_taken(*width, *height) {
                WindowStep::Configure(*width, *height)
            } else {
                WindowStep::Nothing
            }
        },
        WindowInput::DroppedFile => WindowStep::TakeFile,
        WindowInput::RedrawRequested => WindowStep::Draw,
        WindowInput::Key { key, consumed } => {
            if *consumed {
                WindowStep::Nothing
            } else {
                match control_key(key) {
                    ControlKey::ToggleOutputs => WindowStep::ToggleOutputs {
                        open_first: w.outputs == 0,
                    },
                    ControlKey::Hotkey => WindowStep::Hotkey,
                    ControlKey::Ignored => WindowStep::Nothing,
                }
            }
        },
        WindowInput::Other => WindowStep::Nothing,
    }
}

fn status_event(state: &mut SharedState, event: &WindowInput, w: &WindowFacts) -> (r: WindowStep)
    ensures
        r == status_window_step(*event, *w),
        final(state)@ == window_taken(old(state)@, Some(WindowRole::Status), *event, *w),
{
    match event {
        WindowInput::CloseRequested => {
            set_window(state, DeskWindow::Status, false);
            WindowStep::Discard
        },
        WindowInput::Resized(width, height) => {
            if crate::pacing::size_taken(*width, *height) {
                WindowStep::Configure(*width, *height)
            } else {
                WindowStep::RequestDraw
            }
        },
        WindowInput::RedrawRequested => WindowStep::Draw,
        _ => {
            if w.repaint {
                WindowStep::RequestDraw
            } else {
                WindowStep::Nothing
            }
        },
    }
}

fn output_event(state: &mut SharedState, event: &WindowInput, w: &WindowFacts) -> (r: WindowStep)
    ensures
        r == output_step(*event, *w),
        final(state)@ == window_taken(old(state)@, Some(WindowRole::Output), *event, *w),
{
    match event {
        WindowInput::CloseRequested => {
            if w.outputs == 0 || (w.outputs == 1 && w.is_open) {
                set_window(state, DeskWindow::Video, false);
            }
            WindowStep::Discard
        },
        WindowInput::Resized(width, height) => {
            if w.is_open {
                WindowStep::TellSize(*width, *height)
            } else {
                WindowStep::Nothing
            }
        },
        WindowInput::Key { key, .. } => WindowStep::OutputKey(
            output_key(key, w.is_open, w.fullscreen),
        ),
        _ => WindowStep::Nothing,
    }
}

/// Take an event of a window.
pub fn window_event(
    state: &mut SharedState,
    role: Option<WindowRole>,
    event: &WindowInput,
    w: &WindowFacts,
) -> (r: WindowStep)
    ensures
        r == window_step(old(state)@, role, *event, *w),
        final(state)@ == window_taken(old(state)@, role, *event, *w),
{
    match role {
        Some(WindowRole::Control) => control_event(state, event, w),
        Some(WindowRole::Status) => status_event(state, event, w),
        Some(WindowRole::Output) => output_event(state, event, w),
        _ => WindowStep::Nothing,
    }
}

/// No event of a window ends the program while there is work to lose.
pub proof fn closing_a_window_loses_nothing(
    s: StateView,
    role: Option<WindowRole>,
    event: WindowInput,
    w: WindowFacts,
)
    requires
        s.dirty || w.active_cues,
    ensures
        window_step(s, role, event, w) != WindowStep::Exit,
        window_taken(s, role, event, w).dirty == s.dirty,
{
}

/// A request to close the control window ends the program where nothing is
/// lost, and asks first where something would be.
pub proof fn closing_the_control_window_asks_first(
    state: &mut SharedState,
    event: &WindowInput,
    w: &WindowFacts,
    r: WindowStep,
)
    requires
        call_ensures(window_event, (state, Some(WindowRole::Control), event, w), r),
        *event is CloseRequested,
    ensures
        ({
            let s = old(state)@;
            let t = final(state)@;
            let loses = s.dirty || w.active_cues;
            &&& r is Exit <==> !loses
            &&& loses ==> r is Nothing && t.pending_close_confirm
            &&& !loses ==> t == s
            &&& t.show_file == s.show_file
            &&& t.dirty == s.dirty
            &&& t.quit == s.quit
        }),
{
}

/// Only the control window ends the program; a status or output window that is
/// closed goes, and the video window is off with its last output.
pub proof fn closed_windows_go(
    state: &mut SharedState,
    role: Option<WindowRole>,
    event: &WindowInput,
    w: &WindowFacts,
    r: WindowStep,
)
    requires
        call_ensures(window_event, (state, role, event, w), r),
    ensures
        ({
            let s = old(state)@;
            let t = final(state)@;
            let status = role == Some(WindowRole::Status);
            let output = role == Some(WindowRole::Output);
            let closes = *event is CloseRequested;
            &&& r is Exit ==> role == Some(WindowRole::Control) && closes
            &&& r is Discard <==> closes && (status || output)
            &&& closes && status ==> !t.panels.status && t.panels.video == s.panels.video
            &&& closes && output && (w.outputs == 0 || w.outputs == 1 && w.is_open)
                ==> !t.panels.video && t.panels.status == s.panels.status
            &&& closes && output && (w.outputs > 1 || w.outputs == 1 && !w.is_open) ==> t == s
            &&& !closes ==> t == s
            &&& role is None || role == Some(WindowRole::Unknown) ==> r is Nothing && t == s
            &&& t.show_file == s.show_file
            &&& t.panels.settings == s.panels.settings
            &&& t.command_queue == s.command_queue
        }),
{
}

/// Sizes, drawing, dropped files and keys lead where the window they belong to
/// takes them.
pub proof fn events_belong_to_their_window(
    state: &mut SharedState,
    role: WindowRole,
    event: &WindowInput,
    w: &WindowFacts,
    r: WindowStep,
)
    requires
        call_ensures(window_event, (state, Some(role), event, w), r),
    ensures
        *event matches WindowInput::Resized(width, height) ==> {
            let some = width > 0 && height > 0;
            &&& role is Control ==> (if some {
                r == WindowStep::Configure(width, height)
            } else {
                r is Nothing
            })
            &&& role is Status ==> (if some {
                r == WindowStep::Configure(width, height)
            } else {
                r is RequestDraw
            })
            &&& role is Output ==> (if w.is_open {
                r == WindowStep::TellSize(width, height)
            } else {
                r is Nothing
            })
        },
        *event is RedrawRequested && (role is Control || role is Status) ==> r is Draw,
        *event is RedrawRequested && role is Output ==> r is Nothing,
        *event is DroppedFile && role is Control ==> r is TakeFile,
        *event is DroppedFile && role is Output ==> r is Nothing,
        (*event is DroppedFile || *event is Key || *event is Other) && role is Status ==> (
        if w.repaint {
            r is RequestDraw
        } else {
            r is Nothing
        }),
        *event matches WindowInput::Key { key, consumed } ==> {
            let screen = key.f11 || key.letter_f && key.command;
            &&& role is Control && consumed ==> r is Nothing
            &&& role is Control && !consumed && screen ==> r == (WindowStep::ToggleOutputs {
                open_first: w.outputs == 0,
            })
            &&& role is Control && !consumed && !screen ==> (if key.name@.len() > 0
                && !key.command {
                r is Hotkey
            } else {
                r is Nothing
            })
            &&& role is Output ==> r is OutputKey
            &&& role is Output && w.is_open && key.escape ==> r->OutputKey_0.fullscreen == Some(
                false,
            )
            &&& role is Output && w.is_open && !key.escape && screen
                ==> r->OutputKey_0.fullscreen == Some(!w.fullscreen)
            &&& role is Output && (!w.is_open || !key.escape && !screen)
                ==> r->OutputKey_0.fullscreen is None
            &&& role is Output ==> (r->OutputKey_0.hotkey <==> !key.escape && !key.f11
                && !key.command && key.name@.len() > 0)
        },
{
}

} // verus!

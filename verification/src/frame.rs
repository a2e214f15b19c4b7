//! One frame of the desk: what the operator did in it, taken over in order.
//! What is not on screen cannot be answered.

use vstd::prelude::*;

use crate::desk::{
    answer_discard, answer_quit, chosen, discard_answered, import_answered, import_enabled,
    import_frame, menu_bar, quit_answered, quit_choice, set_window, settings_frame, settings_taken,
    shortcut_commands, shortcuts, window_set, DeskWindow, ImportFrame, Keys, MenuItem, QuitChoice,
    SettingsFrame,
};
use crate::identity_card::Cards;
use crate::path::FilePath;
use crate::project::CuePoolApp;
use crate::state::{AppCommand, Moment, SharedState, StateView, RELEASE_NOTES_VERSION};
use crate::text::text_opt;
use crate::video::passed;

verus! {

/// What the operator did in a frame.
pub struct FrameInput {
    pub keys: Keys,
    /// A field has the keyboard, when the frame begins and when it ends.
    pub keyboard_wanted: bool,
    pub keyboard_at_end: bool,
    /// The project that was picked, where one was asked for.
    pub picked: Option<FilePath>,
    pub menu: Option<MenuItem>,
    pub alert_dismissed: bool,
    pub settings: Option<SettingsFrame>,
    /// Windows that were closed.
    pub closed: Vec<DeskWindow>,
    /// The answer to the question whether to quit, and whether the question
    /// was closed some other way.
    pub quit: Option<QuitChoice>,
    pub quit_closed: bool,
    /// The answer to the question whether to discard the project.
    pub discard: Option<bool>,
    pub import: Option<ImportFrame>,
    pub notes_read: bool,
    /// A key or a button was pressed anywhere.
    pub pressed: bool,
    pub card_closed: bool,
}

/// What is on screen, and what is left to do.
pub struct FrameOutcome {
    /// How long the card of the start is up, and how long it will be.
    pub launch: Option<(u64, u64)>,
    pub release_notes: bool,
    /// How long the alert is still shown.
    pub alert: Option<u64>,
    /// How long the card from the help menu is up.
    pub about: Option<u64>,
    /// The take that the editor opens.
    pub take: Option<String>,
    /// The project is to be saved before the program quits.
    pub save: bool,
}

/// Whether the release notes are due: not read yet, and not over the card of
/// the start.
pub open spec fn notes_due(s: StateView, launching: bool) -> bool {
    !launching && s.last_seen_release_notes != Some(RELEASE_NOTES_VERSION@)
}

pub open spec fn keys_taken(
    s: StateView,
    keys: Keys,
    covered: bool,
    editing: bool,
    picked: Option<FilePath>,
) -> StateView {
    StateView {
        command_queue: s.command_queue + shortcut_commands(keys, covered, editing, picked),
        ..s
    }
}

pub open spec fn menu_taken(s: StateView, item: Option<MenuItem>) -> StateView {
    match item {
        Some(item) => chosen(s, item),
        None => s,
    }
}

/// How long the alert is still shown, where there is one that has not expired.
pub open spec fn alert_left(s: StateView, now: Moment) -> Option<u64> {
    match s.operator_alert {
        Some(alert) if alert.expires_at > now => Some((alert.expires_at - now) as u64),
        _ => None,
    }
}

pub open spec fn alert_taken(s: StateView, dismissed: bool, now: Moment) -> StateView {
    if alert_left(s, now) is Some && !dismissed {
        s
    } else {
        StateView { operator_alert: None, ..s }
    }
}

pub open spec fn settings_step(s: StateView, f: Option<SettingsFrame>) -> StateView {
    match f {
        Some(f) if s.panels.settings => settings_taken(s, f),
        _ => s,
    }
}

/// The state with the first `n` of these windows closed.
pub open spec fn windows_closed(s: StateView, closed: Seq<DeskWindow>, n: int) -> StateView
    decreases n,
{
    if n <= 0 {
        s
    } else {
        window_set(windows_closed(s, closed, n - 1), closed[n - 1], false)
    }
}

/// The answer to the question whether to quit, where it is asked.
pub open spec fn quit_given(s: StateView, button: Option<QuitChoice>, closed: bool) -> Option<
    QuitChoice,
> {
    if !s.pending_close_confirm {
        None
    } else if button is Some {
        button
    } else if closed {
        Some(QuitChoice::Cancel)
    } else {
        None
    }
}

pub open spec fn discard_step(s: StateView, answer: Option<bool>) -> StateView {
    match answer {
        Some(agreed) if s.pending_discard_confirm is Some => discard_answered(s, agreed),
        _ => s,
    }
}

/// The import window is answered while it is open; with nothing ticked there
/// is nothing to import.
pub open spec fn import_step(s: StateView, f: Option<ImportFrame>) -> StateView {
    if s.import_request is None {
        s
    } else {
        match f {
            Some(ImportFrame::Import(sections, show)) => if sections.projection
                || sections.lighting || sections.show_settings {
                import_answered(s, ImportFrame::Import(sections, show))
            } else {
                import_answered(s, ImportFrame::Open(sections))
            },
            Some(f) => import_answered(s, f),
            None => s,
        }
    }
}

pub open spec fn notes_step(s: StateView, read: bool) -> StateView {
    if read {
        StateView { last_seen_release_notes: Some(RELEASE_NOTES_VERSION@), ..s }
    } else {
        s
    }
}

/// The state once the take that was asked for is handed to the editor.
pub open spec fn take_opened(s: StateView) -> StateView {
    StateView { open_take_editor: None, ..s }
}

/// The state before the questions are answered.
pub open spec fn worked(
    s: StateView,
    f: FrameInput,
    covered: bool,
    editing: bool,
    now: Moment,
) -> StateView {
    let t = menu_taken(keys_taken(s, f.keys, covered, editing, f.picked), f.menu);
    let u = settings_step(alert_taken(t, f.alert_dismissed, now), f.settings);
    take_opened(windows_closed(u, f.closed@, f.closed@.len() as int))
}

/// The state once the questions are answered. `notes` tells whether the release
/// notes are shown.
pub open spec fn answered(s: StateView, f: FrameInput, notes: bool) -> StateView {
    let t = quit_answered(s, quit_given(s, f.quit, f.quit_closed));
    notes_step(import_step(discard_step(t, f.discard), f.import), notes && f.notes_read)
}

/// The state once a frame is over. The card from the help menu comes up only
/// where nothing else covers the desk.
pub open spec fn frame_state(
    s: StateView,
    f: FrameInput,
    launching: bool,
    editing: bool,
    now: Moment,
) -> StateView {
    let notes = notes_due(s, launching);
    let t = answered(worked(s, f, launching || notes, editing, now), f, notes);
    if !launching && !notes && t.panels.about && f.card_closed {
        window_set(t, DeskWindow::About, false)
    } else {
        t
    }
}

/// When the cards are up once a frame is over. `about` tells whether the card
/// from the help menu is shown.
pub open spec fn frame_cards(cards: Cards, f: FrameInput, about: bool, now: Moment) -> Cards {
    if cards.timing(now) is Some {
        if f.pressed || f.card_closed {
            Cards { launched_at: None, ..cards.begun(now) }
        } else {
            cards.begun(now)
        }
    } else {
        let c = Cards { launched_at: None, ..cards.begun(now) };
        if !about {
            c
        } else if f.card_closed {
            Cards { invoked_at: None, ..c }
        } else {
            Cards { invoked_at: Some(about_since(cards, now)), ..c }
        }
    }
}

/// Since when the card from the help menu is up.
pub open spec fn about_since(cards: Cards, now: Moment) -> Moment {
    match cards.invoked_at {
        Some(at) => at,
        None => now,
    }
}

fn take_keys(
    state: &mut SharedState,
    keys: &Keys,
    covered: bool,
    editing: bool,
    picked: Option<FilePath>,
)
    ensures
        final(state)@ == keys_taken(old(state)@, *keys, covered, editing, picked),
{
    let mut asked: Vec<AppCommand> = shortcuts(keys, covered, editing, picked);
    state.command_queue.append(&mut asked);
}

fn take_menu(state: &mut SharedState, item: Option<MenuItem>)
    ensures
        final(state)@ == menu_taken(old(state)@, item),
{
    match item {
        Some(item) => menu_bar(state, item),
        None => {},
    }
}

fn take_alert(state: &mut SharedState, dismissed: bool, now: Moment) -> (left: Option<u64>)
    ensures
        left == alert_left(old(state)@, now),
        final(state)@ == alert_taken(old(state)@, dismissed, now),
{
    let left: Option<u64> = crate::desk::expire_alert(state, now);
    if dismissed {
        crate::desk::dismiss_alert(state);
    }
    left
}

fn take_settings(state: &mut SharedState, f: Option<SettingsFrame>)
    ensures
        final(state)@ == settings_step(old(state)@, f),
{
    if let Some(f) = f {
        if state.panels.settings {
            settings_frame(state, f);
        }
    }
}

/// Close windows, and hand the take that was asked for to the editor.
fn close_windows(state: &mut SharedState, closed: &Vec<DeskWindow>) -> (take: Option<String>)
    ensures
        text_opt(take) == old(state)@.open_take_editor,
        final(state)@ == take_opened(
            windows_closed(old(state)@, closed@, closed@.len() as int),
        ),
{
    let mut i: usize = 0;
    while i < closed.len()
        invariant
            i <= closed@.len(),
            state@ == windows_closed(old(state)@, closed@, i as int),
        decreases closed@.len() - i,
    {
        set_window(state, closed[i], false);
        i = i + 1;
    }
    proof {
        lemma_closing_keeps_the_take(old(state)@, closed@, closed@.len() as int);
    }
    state.open_take_editor.take()
}

fn take_quit(state: &mut SharedState, button: Option<QuitChoice>, closed: bool) -> (save: bool)
    ensures
        save == (quit_given(old(state)@, button, closed) == Some(QuitChoice::Save)),
        final(state)@ == quit_answered(old(state)@, quit_given(old(state)@, button, closed)),
{
    if state.pending_close_confirm {
        let choice: Option<QuitChoice> = quit_choice(button, closed);
        answer_quit(state, choice)
    } else {
        false
    }
}

fn take_discard(state: &mut SharedState, answer: Option<bool>)
    ensures
        final(state)@ == discard_step(old(state)@, answer),
{
    if let Some(agreed) = answer {
        if state.pending_discard_confirm.is_some() {
            answer_discard(state, agreed);
        }
    }
}

fn take_import(state: &mut SharedState, f: Option<ImportFrame>)
    ensures
        final(state)@ == import_step(old(state)@, f),
{
    if state.import_request.is_none() {
        return;
    }
    match f {
        Some(ImportFrame::Import(sections, show)) => {
            if import_enabled(&sections) {
                import_frame(state, ImportFrame::Import(sections, show));
            } else {
                import_frame(state, ImportFrame::Open(sections));
            }
        },
        Some(f) => import_frame(state, f),
        None => {},
    }
}

fn take_notes(state: &mut SharedState, read: bool)
    ensures
        final(state)@ == notes_step(old(state)@, read),
{
    if read {
        crate::desk::acknowledge_release_notes(state);
    }
}

impl CuePoolApp {
    /// Take over what the operator did in a frame: keys and menus first, then
    /// the windows, then the questions, and the cards last. The commands that
    /// were asked for wait on the queue.
    pub fn update(&mut self, f: FrameInput, now: Moment) -> (r: FrameOutcome)
        ensures
            ({
                let s = old(self).state@;
                let launching = old(self).cards.timing(now) is Some;
                let notes = notes_due(s, launching);
                let editing = f.keyboard_wanted || old(self).keyboard_focus_at_frame_end;
                let w = worked(s, f, launching || notes, editing, now);
                let about = !launching && !notes && answered(w, f, notes).panels.about;
                &&& final(self).state@ == frame_state(s, f, launching, editing, now)
                &&& final(self).cards == frame_cards(old(self).cards, f, about, now)
                &&& final(self).keyboard_focus_at_frame_end == f.keyboard_at_end
                &&& final(self).status_copied_at == old(self).status_copied_at
                &&& r.launch is Some == launching
                &&& r.launch matches Some((elapsed, remaining)) ==> {
                    &&& elapsed == (old(self).cards.timing(now)->0).0
                    &&& remaining == (old(self).cards.timing(now)->0).1
                }
                &&& r.release_notes == notes
                &&& r.alert == alert_left(
                    menu_taken(keys_taken(s, f.keys, launching || notes, editing, f.picked), f.menu),
                    now,
                )
                &&& r.about == (if about {
                    Some(passed(about_since(old(self).cards, now), now) as u64)
                } else {
                    None
                })
                &&& text_opt(r.take) == s.open_take_editor
                &&& r.save == (quit_given(w, f.quit, f.quit_closed) == Some(QuitChoice::Save))
            }),
    {
        let launch: Option<(u64, u64)> = self.cards.launch_card_timing(now);
        let launching: bool = launch.is_some();
        let notes: bool = crate::desk::shows_release_notes(&self.state, launching);
        let editing: bool = crate::desk::editing_text(
            f.keyboard_wanted,
            self.keyboard_focus_at_frame_end,
        );
        proof {
            lemma_work_keeps_the_take(self.state@, f, launching || notes, editing, now);
        }
        take_keys(&mut self.state, &f.keys, launching || notes, editing, f.picked);
        take_menu(&mut self.state, f.menu);
        let alert: Option<u64> = take_alert(&mut self.state, f.alert_dismissed, now);
        take_settings(&mut self.state, f.settings);
        let take: Option<String> = close_windows(&mut self.state, &f.closed);
        let save: bool = take_quit(&mut self.state, f.quit, f.quit_closed);
        take_discard(&mut self.state, f.discard);
        take_import(&mut self.state, f.import);
        take_notes(&mut self.state, notes && f.notes_read);
        let mut about: Option<u64> = None;
        if launching {
            self.cards.end_launch(f.pressed, f.card_closed);
        } else if !notes && self.about_requested() {
            about = Some(self.cards.invoked_for(now));
            if f.card_closed {
                self.cards.end_invoked(&mut self.state);
            }
        }
        self.keyboard_focus_at_frame_end = f.keyboard_at_end;
        FrameOutcome { launch, release_notes: notes, alert, about, take, save }
    }
}

/// The key that dismisses a card does nothing behind it.
pub proof fn keys_behind_a_card_do_nothing(
    s: StateView,
    keys: Keys,
    editing: bool,
    picked: Option<FilePath>,
)
    ensures
        keys_taken(s, keys, true, editing, picked) == s,
{
    assert(s.command_queue + shortcut_commands(keys, true, editing, picked) =~= s.command_queue);
}

proof fn lemma_closing_keeps_the_take(s: StateView, closed: Seq<DeskWindow>, n: int)
    ensures
        windows_closed(s, closed, n).open_take_editor == s.open_take_editor,
    decreases n,
{
    if n > 0 {
        lemma_closing_keeps_the_take(s, closed, n - 1);
    }
}

proof fn lemma_work_keeps_the_take(
    s: StateView,
    f: FrameInput,
    covered: bool,
    editing: bool,
    now: Moment,
)
    ensures
        ({
            let t = menu_taken(keys_taken(s, f.keys, covered, editing, f.picked), f.menu);
            let u = settings_step(alert_taken(t, f.alert_dismissed, now), f.settings);
            u.open_take_editor == s.open_take_editor
        }),
{
}

/// A take that was asked for is opened in one frame: the frame leaves no wish
/// for it behind.
pub proof fn a_take_is_opened_once(
    s: StateView,
    f: FrameInput,
    launching: bool,
    editing: bool,
    now: Moment,
)
    ensures
        frame_state(s, f, launching, editing, now).open_take_editor is None,
{
}

/// A question that is not asked has no answer: nothing is quit, discarded or
/// imported.
pub proof fn only_what_is_asked_is_answered(s: StateView, f: FrameInput, notes: bool)
    requires
        !s.pending_close_confirm,
        s.pending_discard_confirm is None,
        s.import_request is None,
    ensures
        answered(s, f, notes) == notes_step(s, notes && f.notes_read),
{
}

/// A frame in which nothing was chosen, set or closed takes keys alone; the
/// alert runs out or is dismissed, and the take goes to the editor.
pub proof fn a_quiet_frame_takes_keys_alone(s: StateView, f: FrameInput, covered: bool, editing: bool, now: Moment)
    requires
        f.menu is None,
        f.settings is None,
        f.closed@.len() == 0,
    ensures
        worked(s, f, covered, editing, now) == (StateView {
            command_queue: s.command_queue + shortcut_commands(f.keys, covered, editing, f.picked),
            operator_alert: if alert_left(s, now) is Some && !f.alert_dismissed {
                s.operator_alert
            } else {
                None
            },
            open_take_editor: None,
            ..s
        }),
{
}

/// What is not asked has no answer: without a question nothing is quit,
/// discarded or imported in a frame, and keys behind a card or the notes do
/// nothing.
#[verifier::rlimit(60)]
pub proof fn a_frame_answers_only_what_is_asked(
    app: &mut CuePoolApp,
    f: FrameInput,
    now: Moment,
    r: FrameOutcome,
)
    requires
        call_ensures(CuePoolApp::update, (app, f, now), r),
        f.menu is None,
        f.settings is None,
        f.closed@.len() == 0,
        !old(app).state@.pending_close_confirm,
        old(app).state@.pending_discard_confirm is None,
        old(app).state@.import_request is None,
    ensures
        ({
            let s = old(app).state@;
            let t = final(app).state@;
            let covered = r.launch is Some || r.release_notes;
            &&& t.quit == s.quit
            &&& !r.save
            &&& t.show_file == s.show_file
            &&& t.dirty == s.dirty
            &&& t.selected_cue_id == s.selected_cue_id
            &&& t.undo_redo == s.undo_redo
            &&& covered ==> t.command_queue == s.command_queue
            &&& !covered ==> t.command_queue == s.command_queue + shortcut_commands(
                f.keys,
                false,
                f.keyboard_wanted || old(app).keyboard_focus_at_frame_end,
                f.picked,
            )
            &&& final(app).keyboard_focus_at_frame_end == f.keyboard_at_end
            &&& t.open_take_editor is None
            &&& text_opt(r.take) == s.open_take_editor
        }),
{
    let s = old(app).state@;
    keys_behind_a_card_do_nothing(
        s,
        f.keys,
        f.keyboard_wanted || old(app).keyboard_focus_at_frame_end,
        f.picked,
    );
}

/// The question whether to quit is answered where it is asked: discarding quits,
/// cancelling or closing it does not, and to save comes first.
pub proof fn the_answer_to_quit_is_taken(
    s: StateView,
    button: Option<QuitChoice>,
    closed: bool,
)
    requires
        !s.quit,
    ensures
        ({
            let choice = quit_given(s, button, closed);
            let t = quit_answered(s, choice);
            &&& t.quit <==> s.pending_close_confirm && button == Some(QuitChoice::Discard)
            &&& choice == Some(QuitChoice::Save) <==> s.pending_close_confirm && button == Some(
                QuitChoice::Save,
            )
            &&& t.pending_close_confirm <==> s.pending_close_confirm && (button == Some(
                QuitChoice::Save,
            ) || button is None && !closed)
            &&& t.show_file == s.show_file
            &&& t.command_queue == s.command_queue
        }),
{
}

/// The question whether to discard the project is answered where it is asked:
/// the command that waited runs without asking again where the operator agreed,
/// and is dropped where they did not.
pub proof fn the_answer_to_discard_is_taken(s: StateView, answer: Option<bool>)
    ensures
        ({
            let t = discard_step(s, answer);
            let waits = s.pending_discard_confirm is Some;
            &&& waits && answer == Some(true) ==> t.discard_confirmed
                && t.pending_discard_confirm is None && t.command_queue == s.command_queue.push(
                s.pending_discard_confirm->0,
            )
            &&& waits && answer == Some(false) ==> t.discard_confirmed == s.discard_confirmed
                && t.pending_discard_confirm is None && t.command_queue == s.command_queue
            &&& !waits || answer is None ==> t == s
            &&& t.show_file == s.show_file
        }),
{
}

/// An alert that has not run out is shown for what is left of its time, unless
/// it is dismissed; one that has is gone.
pub proof fn the_alert_is_shown_while_it_lasts(s: StateView, dismissed: bool, now: Moment)
    ensures
        ({
            let t = alert_taken(s, dismissed, now);
            let shown = s.operator_alert is Some && s.operator_alert->0.expires_at > now;
            &&& alert_left(s, now) is Some <==> shown
            &&& shown ==> alert_left(s, now)->0 + now == s.operator_alert->0.expires_at
            &&& shown && !dismissed ==> t == s
            &&& !shown || dismissed ==> t.operator_alert is None
            &&& t.show_file == s.show_file
        }),
{
}

/// The release notes are due until they were read, and not over the card of the
/// start.
pub proof fn the_notes_are_due_until_read(s: StateView, launching: bool)
    ensures
        launching ==> !notes_due(s, launching),
        s.last_seen_release_notes is None && !launching ==> notes_due(s, launching),
        !notes_due(notes_step(s, true), launching),
        notes_step(s, false) == s,
        notes_step(s, true).show_file == s.show_file,
{
}

/// With nothing ticked there is nothing to import, and the window stays; with
/// something ticked the show takes it over, and the window goes. Without the
/// window there is nothing to answer.
pub proof fn what_is_ticked_is_imported(
    s: StateView,
    sections: crate::state::ImportSections,
    show: crate::show::ShowFile,
)
    ensures
        ({
            let t = import_step(s, Some(ImportFrame::Import(sections, show)));
            let ticked = sections.projection || sections.lighting || sections.show_settings;
            let open = s.import_request is Some;
            &&& open && ticked ==> t.show_file == show@ && t.dirty && t.import_request is None
            &&& open && !ticked ==> t.show_file == s.show_file && t.dirty == s.dirty
                && t.import_request is Some
            &&& !open ==> t == s
            &&& import_step(s, None) == s
        }),
{
}

} // verus!

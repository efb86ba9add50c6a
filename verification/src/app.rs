//! The picker and settings window as a state machine: each event from the
//! window, the tray, the shortcut or a finished outside step comes in as a
//! call, and the call says what the window must do next.
use vstd::prelude::*;

use crate::clipboard::{queued, texts, Clip};
use crate::config::{clamped_history_size, Config, HISTORY_SIZE_MAX, HISTORY_SIZE_MIN};

verus! {

/// Gap between hiding the picker and sending the paste keystroke, so the OS
/// has time to hand focus back to the app the user was typing in.
pub const FOCUS_RETURN_DELAY_MS: u64 = 180;

/// What the picker says when it opens after a paste keystroke could not be sent.
pub const PASTE_MISSED_NOTICE: &'static str =
    "Your pick is on the clipboard, but it could not be pasted for you. Paste it yourself.";

/// Which pane the window shows.
#[derive(PartialEq, Eq, Structural, Clone, Copy)]
pub enum Pane {
    Picker,
    Settings,
}

/// What the window has to do after an event.
#[derive(PartialEq, Eq, Structural, Clone, Copy)]
pub enum Effect {
    Nothing,
    /// The window was shown: bring the app to the front.
    FocusApp,
    /// The window was hidden: hand focus back to the previous app.
    ReleaseFocus,
    /// The user chose Quit.
    CloseWindow,
}

/// An entry of the tray menu.
#[derive(PartialEq, Eq, Structural, Clone, Copy)]
pub enum MenuChoice {
    Open,
    Settings,
    Quit,
    /// An item that is not one of ours, or a menu event without a tray.
    Other,
}

/// Something that happened outside the window's own event loop.
#[derive(PartialEq, Eq, Structural, Clone, Copy)]
pub enum Signal {
    /// The global shortcut was pressed.
    ToggleWindow,
    /// The system Service asked for the picker.
    OpenPicker,
    /// A tray menu entry was chosen.
    Menu(MenuChoice),
}

/// The keys pressed in the picker during one frame.
#[derive(PartialEq, Eq, Structural, Clone, Copy)]
pub struct PickerKeys {
    pub escape: bool,
    pub enter: bool,
    pub down: bool,
    pub up: bool,
    /// The row picked with a number key (0 for the key 1), the highest when
    /// several were pressed.
    pub number: Option<usize>,
}

/// Whether the paste keystroke is due.
#[derive(PartialEq, Eq, Structural, Clone, Copy)]
pub enum PasteStep {
    /// No paste was asked for.
    Idle,
    /// A paste is due after this many more milliseconds.
    Wait(u64),
    /// Send the keystroke now.
    Send,
}

/// The next outside step of saving the settings.
#[derive(PartialEq, Eq, Structural, Clone, Copy)]
pub enum SaveNext {
    /// Saving stopped; the notice says why.
    Stop,
    /// Register or remove the login item (`true` to register).
    ApplyLoginItem(bool),
    /// Take the draft: call `commit`.
    Commit,
}

/// The window's state as contracts see it.
pub struct PasteModel {
    pub config: Config,
    /// The edited copy shown in the settings pane; only taken on save.
    pub draft: Config,
    pub pane: Pane,
    pub visible: bool,
    /// The entries the picker shows, newest first.
    pub entries: Seq<Seq<char>>,
    pub selected: nat,
    /// Whether the shown window has held keyboard focus yet.
    pub saw_focus: bool,
    /// When the paste keystroke is due, in milliseconds on the caller's clock.
    pub paste_due: Option<u64>,
    /// Whether the last paste keystroke could not be sent, and the picker has
    /// not said so yet.
    pub paste_missed: bool,
    pub notice: Option<Seq<char>>,
}

/// The picker and settings window.
pub struct MultimPaste {
    config: Config,
    draft: Config,
    pane: Pane,
    visible: bool,
    entries: Vec<String>,
    selected: usize,
    saw_focus: bool,
    paste_due: Option<u64>,
    paste_missed: bool,
    notice: Option<String>,
}

impl View for MultimPaste {
    type V = PasteModel;

    closed spec fn view(&self) -> PasteModel {
        PasteModel {
            config: self.config,
            draft: self.draft,
            pane: self.pane,
            visible: self.visible,
            entries: texts(self.entries@),
            selected: self.selected as nat,
            saw_focus: self.saw_focus,
            paste_due: self.paste_due,
            paste_missed: self.paste_missed,
            notice: match self.notice {
                Some(n) => Some(n@),
                None => None,
            },
        }
    }
}

/// The selection of the picker lies on an entry (or is the first row of an
/// empty list).
pub open spec fn selection_ok(m: PasteModel) -> bool {
    m.pane == Pane::Picker ==> (m.selected == 0 || m.selected < m.entries.len())
}

/// The state after the window shows `pane` with the history `history`.
pub open spec fn shown(m: PasteModel, pane: Pane, history: Seq<Seq<char>>) -> PasteModel {
    PasteModel {
        pane,
        notice: if m.paste_missed {
            Some(PASTE_MISSED_NOTICE@)
        } else {
            None
        },
        paste_missed: false,
        visible: true,
        saw_focus: false,
        entries: if pane == Pane::Picker {
            history
        } else {
            m.entries
        },
        selected: if pane == Pane::Picker {
            0
        } else {
            m.selected
        },
        draft: if pane == Pane::Settings {
            m.config
        } else {
            m.draft
        },
        ..m
    }
}

/// The state after an entry of the picker was picked at `now_ms`: the window
/// hides and, when the config asks for it, the paste keystroke is due
/// `FOCUS_RETURN_DELAY_MS` later.
pub open spec fn picked(m: PasteModel, now_ms: u64) -> PasteModel {
    PasteModel {
        paste_due: if m.config.paste_on_select {
            Some((now_ms + FOCUS_RETURN_DELAY_MS) as u64)
        } else {
            m.paste_due
        },
        ..hidden(m)
    }
}

/// The state after the window hides.
pub open spec fn hidden(m: PasteModel) -> PasteModel {
    PasteModel { visible: false, saw_focus: false, notice: None, ..m }
}

/// Where the selection goes when the arrow keys move it by `delta` rows in a
/// list of `len` entries.
pub open spec fn moved_selection(selected: nat, delta: int, len: nat) -> nat {
    if delta > 0 {
        if selected + 1 < len - 1 {
            selected + 1
        } else {
            (len - 1) as nat
        }
    } else if selected == 0 {
        0
    } else {
        (selected - 1) as nat
    }
}

/// The text of the notice shown when the login item could not be changed.
pub open spec fn login_notice(error: Seq<char>) -> Seq<char> {
    "Could not change the login item: "@ + error
}

/// The text of the notice shown after saving.
pub open spec fn saved_notice(written: Result<(), Seq<char>>) -> Seq<char> {
    match written {
        Ok(()) => "Saved."@,
        Err(e) => "Saved in memory, but writing the file failed: "@ + e,
    }
}

impl MultimPaste {
    /// The state every method keeps.
    pub open spec fn well_formed(&self) -> bool {
        selection_ok(self@)
    }

    /// A hidden window on the picker pane, editing a copy of `config`.
    pub fn new(config: Config) -> (r: MultimPaste)
        ensures
            r.well_formed(),
            r@.config == config,
            r@.draft == config,
            r@.pane == Pane::Picker,
            !r@.visible,
            r@.entries == Seq::<Seq<char>>::empty(),
            r@.selected == 0,
            !r@.saw_focus,
            r@.paste_due is None,
            !r@.paste_missed,
            r@.notice is None,
    {
        let draft = config.clone();
        let r = MultimPaste {
            config,
            draft,
            pane: Pane::Picker,
            visible: false,
            entries: Vec::new(),
            selected: 0,
            saw_focus: false,
            paste_due: None,
            paste_missed: false,
            notice: None,
        };
        assert(r@.entries =~= Seq::<Seq<char>>::empty());
        r
    }

    /// Shows a message under the current pane.
    pub fn set_notice(&mut self, notice: String)
        ensures
            final(self)@ == (PasteModel { notice: Some(notice@), ..old(self)@ }),
    {
        self.notice = Some(notice);
    }

    /// Shows `pane`. The picker starts from the current history with the
    /// newest entry selected; settings start from the saved config.
    pub fn show(&mut self, clip: &Clip, pane: Pane) -> (e: Effect)
        requires
            old(self).well_formed(),
        ensures
            final(self).well_formed(),
            final(self)@ == shown(old(self)@, pane, clip@.history),
            e == Effect::FocusApp,
    {
        self.pane = pane;
        self.notice = if self.paste_missed {
            Some(String::from_str(PASTE_MISSED_NOTICE))
        } else {
            None
        };
        self.paste_missed = false;
        self.visible = true;
        self.saw_focus = false;
        match pane {
            Pane::Picker => {
                self.entries = clip.entries();
                self.selected = 0;
            },
            Pane::Settings => {
                self.draft = self.config.clone();
            },
        }
        Effect::FocusApp
    }

    /// Hides the window.
    pub fn dismiss(&mut self) -> (e: Effect)
        requires
            old(self).well_formed(),
        ensures
            final(self).well_formed(),
            final(self)@ == hidden(old(self)@),
            e == Effect::ReleaseFocus,
    {
        self.visible = false;
        self.saw_focus = false;
        self.notice = None;
        Effect::ReleaseFocus
    }

    /// Hides a shown window; shows the picker otherwise.
    pub fn toggle(&mut self, clip: &Clip) -> (e: Effect)
        requires
            old(self).well_formed(),
        ensures
            final(self).well_formed(),
            final(self)@.visible == !old(self)@.visible,
            old(self)@.visible ==> final(self)@ == hidden(old(self)@) && e == Effect::ReleaseFocus,
            !old(self)@.visible ==> final(self)@ == shown(old(self)@, Pane::Picker, clip@.history)
                && e == Effect::FocusApp,
    {
        if self.visible {
            self.dismiss()
        } else {
            self.show(clip, Pane::Picker)
        }
    }

    /// Puts entry `index` back on the clipboard (through `clip`), hides the
    /// picker and, when the config asks for it, schedules the paste keystroke
    /// `FOCUS_RETURN_DELAY_MS` after `now_ms`. An index past the end does nothing.
    pub fn pick(&mut self, clip: &mut Clip, index: usize, now_ms: u64) -> (e: Effect)
        requires
            old(self).well_formed(),
            now_ms <= u64::MAX - FOCUS_RETURN_DELAY_MS,
        ensures
            final(self).well_formed(),
            index < old(self)@.entries.len() ==> {
                &&& final(clip)@.requests == queued(old(clip)@, old(self)@.entries[index as int])
                &&& final(self)@ == picked(old(self)@, now_ms)
                &&& e == Effect::ReleaseFocus
            },
            index >= old(self)@.entries.len() ==> {
                &&& final(clip)@.requests == old(clip)@.requests
                &&& final(self)@ == old(self)@
                &&& e == Effect::Nothing
            },
            final(clip)@.history == old(clip)@.history,
            final(clip)@.limit == old(clip)@.limit,
            final(clip)@.accepting == old(clip)@.accepting,
    {
        if index >= self.entries.len() {
            return Effect::Nothing;
        }
        let text = self.entries[index].clone();
        clip.copy(text);
        let e = self.dismiss();
        if self.config.paste_on_select {
            self.paste_due = Some(now_ms + FOCUS_RETURN_DELAY_MS);
        }
        e
    }

    /// Whether the paste keystroke is due at `now_ms`; when it is, it is no
    /// longer pending.
    pub fn pending_paste(&mut self, now_ms: u64) -> (step: PasteStep)
        requires
            old(self).well_formed(),
        ensures
            final(self).well_formed(),
            match old(self)@.paste_due {
                None => step == PasteStep::Idle && final(self)@ == old(self)@,
                Some(due) => if now_ms < due {
                    step == PasteStep::Wait((due - now_ms) as u64) && final(self)@ == old(self)@
                } else {
                    step == PasteStep::Send && final(self)@ == (PasteModel {
                        paste_due: None,
                        ..old(self)@
                    })
                },
            },
    {
        match self.paste_due {
            None => PasteStep::Idle,
            Some(due) => {
                if now_ms < due {
                    PasteStep::Wait(due - now_ms)
                } else {
                    self.paste_due = None;
                    PasteStep::Send
                }
            },
        }
    }

    /// The paste keystroke that was due could not be sent (on macOS, for lack
    /// of the Accessibility permission). The pick stays on the clipboard, and
    /// the picker says so the next time it opens.
    pub fn paste_failed(&mut self)
        requires
            old(self).well_formed(),
        ensures
            final(self).well_formed(),
            final(self)@ == (PasteModel { paste_missed: true, ..old(self)@ }),
    {
        self.paste_missed = true;
    }

    /// A signal from the shortcut, the Service or the tray menu.
    pub fn handle_signal(&mut self, clip: &Clip, signal: Signal) -> (e: Effect)
        requires
            old(self).well_formed(),
        ensures
            final(self).well_formed(),
            match signal {
                Signal::ToggleWindow => if old(self)@.visible {
                    final(self)@ == hidden(old(self)@) && e == Effect::ReleaseFocus
                } else {
                    final(self)@ == shown(old(self)@, Pane::Picker, clip@.history) && e
                        == Effect::FocusApp
                },
                Signal::OpenPicker | Signal::Menu(MenuChoice::Open) => final(self)@ == shown(
                    old(self)@,
                    Pane::Picker,
                    clip@.history,
                ) && e == Effect::FocusApp,
                Signal::Menu(MenuChoice::Settings) => final(self)@ == shown(
                    old(self)@,
                    Pane::Settings,
                    clip@.history,
                ) && e == Effect::FocusApp,
                Signal::Menu(MenuChoice::Quit) => final(self)@ == old(self)@ && e
                    == Effect::CloseWindow,
                Signal::Menu(MenuChoice::Other) => final(self)@ == old(self)@ && e
                    == Effect::Nothing,
            },
    {
        match signal {
            Signal::ToggleWindow => self.toggle(clip),
            Signal::OpenPicker => self.show(clip, Pane::Picker),
            Signal::Menu(choice) => match choice {
                MenuChoice::Quit => Effect::CloseWindow,
                MenuChoice::Settings => self.show(clip, Pane::Settings),
                MenuChoice::Open => self.show(clip, Pane::Picker),
                MenuChoice::Other => Effect::Nothing,
            },
        }
    }

    /// The keys pressed in the picker: Escape closes it, a number key picks
    /// that row, Enter picks the selected row, and the arrows move the
    /// selection within the list. The first of these that applies wins.
    pub fn picker_keys(&mut self, clip: &mut Clip, keys: PickerKeys, now_ms: u64) -> (e: Effect)
        requires
            old(self).well_formed(),
            now_ms <= u64::MAX - FOCUS_RETURN_DELAY_MS,
        ensures
            final(self).well_formed(),
            final(clip)@.history == old(clip)@.history,
            final(clip)@.limit == old(clip)@.limit,
            final(clip)@.accepting == old(clip)@.accepting,
            keys.escape ==> final(self)@ == hidden(old(self)@) && e == Effect::ReleaseFocus
                && final(clip)@.requests == old(clip)@.requests,
            !keys.escape && keys.number is Some ==> {
                let i = keys.number->0;
                if i < old(self)@.entries.len() {
                    final(clip)@.requests == queued(old(clip)@, old(self)@.entries[i as int])
                        && final(self)@ == picked(old(self)@, now_ms) && e == Effect::ReleaseFocus
                } else {
                    final(clip)@.requests == old(clip)@.requests && final(self)@ == old(self)@ && e
                        == Effect::Nothing
                }
            },
            !keys.escape && keys.number is None && keys.enter ==> {
                let i = old(self)@.selected;
                if i < old(self)@.entries.len() {
                    final(clip)@.requests == queued(old(clip)@, old(self)@.entries[i as int])
                        && final(self)@ == picked(old(self)@, now_ms) && e == Effect::ReleaseFocus
                } else {
                    final(clip)@.requests == old(clip)@.requests && final(self)@ == old(self)@ && e
                        == Effect::Nothing
                }
            },
            !keys.escape && keys.number is None && !keys.enter ==> {
                let delta = (if keys.down {
                    1int
                } else {
                    0int
                }) - (if keys.up {
                    1int
                } else {
                    0int
                });
                &&& final(clip)@.requests == old(clip)@.requests
                &&& e == Effect::Nothing
                &&& final(self)@ == (if delta != 0 && old(self)@.entries.len() > 0 {
                    PasteModel {
                        selected: moved_selection(
                            old(self)@.selected,
                            delta,
                            old(self)@.entries.len(),
                        ),
                        ..old(self)@
                    }
                } else {
                    old(self)@
                })
            },
    {
        if keys.escape {
            return self.dismiss();
        }
        if let Some(index) = keys.number {
            return self.pick(clip, index, now_ms);
        }
        if keys.enter {
            let index = self.selected;
            return self.pick(clip, index, now_ms);
        }
        let down = keys.down && !keys.up;
        let up = keys.up && !keys.down;
        if (down || up) && self.entries.len() > 0 {
            let last = self.entries.len() - 1;
            if down {
                self.selected = if self.selected < last {
                    self.selected + 1
                } else {
                    last
                };
            } else {
                self.selected = if self.selected > 0 {
                    self.selected - 1
                } else {
                    0
                };
            }
        }
        Effect::Nothing
    }

    /// The pointer rests on row `index` of the picker: it becomes the selection.
    pub fn hover(&mut self, index: usize)
        requires
            old(self).well_formed(),
            index < old(self)@.entries.len(),
        ensures
            final(self).well_formed(),
            final(self)@ == (PasteModel { selected: index as nat, ..old(self)@ }),
    {
        self.selected = index;
    }

    /// Records whether the shown window holds keyboard focus this frame. Until
    /// it has held focus once, a window without it is still waiting for it.
    pub fn note_focus(&mut self, focused: bool)
        requires
            old(self).well_formed(),
        ensures
            final(self).well_formed(),
            final(self)@ == (PasteModel { saw_focus: old(self)@.saw_focus || focused, ..old(self)@ }),
    {
        self.saw_focus = self.saw_focus || focused;
    }

    /// Hides the picker when it lost the focus it had, the way a menu closes
    /// when the user clicks elsewhere.
    pub fn dismiss_if_unfocused(&mut self, focused: bool) -> (e: Effect)
        requires
            old(self).well_formed(),
        ensures
            final(self).well_formed(),
            if old(self)@.pane == Pane::Picker && old(self)@.saw_focus && !focused {
                final(self)@ == hidden(old(self)@) && e == Effect::ReleaseFocus
            } else {
                final(self)@ == old(self)@ && e == Effect::Nothing
            },
    {
        if self.pane == Pane::Picker && self.saw_focus && !focused {
            self.dismiss()
        } else {
            Effect::Nothing
        }
    }

    /// The user edited the settings pane. The number of entries to keep is
    /// held to `HISTORY_SIZE_MIN..=HISTORY_SIZE_MAX`, as the pane offers it.
    pub fn set_draft(&mut self, draft: Config)
        ensures
            final(self)@ == (PasteModel {
                draft: Config { history_size: clamped_history_size(draft.history_size), ..draft },
                ..old(self)@
            }),
    {
        let mut draft = draft;
        draft.history_size = if draft.history_size < HISTORY_SIZE_MIN {
            HISTORY_SIZE_MIN
        } else if draft.history_size > HISTORY_SIZE_MAX {
            HISTORY_SIZE_MAX
        } else {
            draft.history_size
        };
        self.draft = draft;
    }

    /// "Back" in the settings pane: the edits are dropped and the picker shows.
    pub fn back(&mut self, clip: &Clip) -> (e: Effect)
        requires
            old(self).well_formed(),
        ensures
            final(self).well_formed(),
            final(self)@ == shown(
                PasteModel { draft: old(self)@.config, ..old(self)@ },
                Pane::Picker,
                clip@.history,
            ),
            final(self)@.draft == final(self)@.config,
            e == Effect::FocusApp,
    {
        self.draft = self.config.clone();
        self.show(clip, Pane::Picker)
    }

    /// The keys pressed in the settings pane: Escape goes back to the picker.
    pub fn settings_keys(&mut self, clip: &Clip, escape: bool) -> (e: Effect)
        requires
            old(self).well_formed(),
        ensures
            final(self).well_formed(),
            escape ==> final(self)@ == shown(old(self)@, Pane::Picker, clip@.history) && e
                == Effect::FocusApp,
            !escape ==> final(self)@ == old(self)@ && e == Effect::Nothing,
    {
        if escape {
            self.show(clip, Pane::Picker)
        } else {
            Effect::Nothing
        }
    }

    /// "Clear history" in the settings pane.
    pub fn clear_history(&mut self, clip: &mut Clip)
        requires
            old(self).well_formed(),
            old(clip).well_formed(),
            old(self)@.pane == Pane::Settings,
        ensures
            final(self).well_formed(),
            final(clip).well_formed(),
            final(clip)@.history == Seq::<Seq<char>>::empty(),
            final(clip)@.limit == old(clip)@.limit,
            final(clip)@.accepting == old(clip)@.accepting,
            final(clip)@.requests == old(clip)@.requests,
            final(self)@ == (PasteModel {
                entries: Seq::<Seq<char>>::empty(),
                notice: Some("History cleared."@),
                ..old(self)@
            }),
    {
        clip.clear();
        self.entries.clear();
        self.notice = Some(String::from_str("History cleared."));
        assert(texts(self.entries@) =~= Seq::<Seq<char>>::empty());
    }

    /// Saving, first step: the OS took the draft's shortcut (`Ok`), or refused
    /// it with this notice.
    pub fn shortcut_registered(&mut self, result: Result<(), String>) -> (next: SaveNext)
        requires
            old(self).well_formed(),
        ensures
            final(self).well_formed(),
            match result {
                Err(notice) => next == SaveNext::Stop && final(self)@ == (PasteModel {
                    notice: Some(notice@),
                    ..old(self)@
                }),
                Ok(()) => final(self)@ == old(self)@ && next == if old(self)@.draft.start_at_login
                    != old(self)@.config.start_at_login {
                    SaveNext::ApplyLoginItem(old(self)@.draft.start_at_login)
                } else {
                    SaveNext::Commit
                },
            },
    {
        match result {
            Err(notice) => {
                self.notice = Some(notice);
                SaveNext::Stop
            },
            Ok(()) => {
                if self.draft.start_at_login != self.config.start_at_login {
                    SaveNext::ApplyLoginItem(self.draft.start_at_login)
                } else {
                    SaveNext::Commit
                }
            },
        }
    }

    /// Saving, second step: the login item was changed (`Ok`), or could not be
    /// changed for this reason, and the draft goes back to the saved choice.
    pub fn login_item_applied(&mut self, result: Result<(), String>) -> (next: SaveNext)
        requires
            old(self).well_formed(),
        ensures
            final(self).well_formed(),
            match result {
                Err(error) => next == SaveNext::Stop && final(self)@ == (PasteModel {
                    notice: Some(login_notice(error@)),
                    draft: Config { start_at_login: old(self)@.config.start_at_login, ..old(self)@.draft },
                    ..old(self)@
                }),
                Ok(()) => next == SaveNext::Commit && final(self)@ == old(self)@,
            },
    {
        match result {
            Err(error) => {
                let mut notice = String::from_str("Could not change the login item: ");
                notice.append(error.as_str());
                self.notice = Some(notice);
                self.draft.start_at_login = self.config.start_at_login;
                SaveNext::Stop
            },
            Ok(()) => SaveNext::Commit,
        }
    }

    /// Saving, last decision: the draft becomes the config and the history
    /// takes its limit. Returns the config to write to disk.
    pub fn commit(&mut self, clip: &mut Clip) -> (written: Config)
        requires
            old(self).well_formed(),
            old(clip).well_formed(),
        ensures
            final(self).well_formed(),
            final(clip).well_formed(),
            final(self)@ == (PasteModel { config: old(self)@.draft, ..old(self)@ }),
            written == old(self)@.draft,
            final(clip)@.limit == crate::clipboard::effective_limit(
                old(self)@.draft.history_size as nat,
            ),
            final(clip)@.history == crate::clipboard::keep_at_most(
                old(clip)@.history,
                crate::clipboard::effective_limit(old(self)@.draft.history_size as nat),
            ),
            final(clip)@.requests == old(clip)@.requests,
            final(clip)@.accepting == old(clip)@.accepting,
    {
        clip.set_limit(self.draft.history_size);
        self.config = self.draft.clone();
        self.config.clone()
    }

    /// Saving, after the write: the file was written (`Ok`), or this went wrong.
    pub fn written(&mut self, result: Result<(), String>)
        ensures
            final(self)@ == (PasteModel {
                notice: Some(
                    saved_notice(
                        match result {
                            Ok(()) => Ok(()),
                            Err(e) => Err(e@),
                        },
                    ),
                ),
                ..old(self)@
            }),
    {
        match result {
            Ok(()) => {
                self.notice = Some(String::from_str("Saved."));
            },
            Err(e) => {
                let mut notice = String::from_str("Saved in memory, but writing the file failed: ");
                notice.append(e.as_str());
                self.notice = Some(notice);
            },
        }
    }
    /// Whether the window is shown.
    pub fn is_visible(&self) -> (r: bool)
        ensures
            r == self@.visible,
    {
        self.visible
    }

    /// The pane the window shows.
    pub fn pane(&self) -> (r: Pane)
        ensures
            r == self@.pane,
    {
        self.pane
    }

    /// The selected row of the picker.
    pub fn selected(&self) -> (r: usize)
        ensures
            r == self@.selected,
    {
        self.selected
    }

    /// The entries the picker shows, newest first.
    pub fn entries(&self) -> (r: &Vec<String>)
        ensures
            texts(r@) == self@.entries,
    {
        &self.entries
    }

    /// The saved settings.
    pub fn config(&self) -> (r: &Config)
        ensures
            *r == self@.config,
    {
        &self.config
    }

    /// The settings as edited in the settings pane.
    pub fn draft(&self) -> (r: &Config)
        ensures
            *r == self@.draft,
    {
        &self.draft
    }

    /// The message shown under the pane, if any.
    pub fn notice(&self) -> (r: Option<&str>)
        ensures
            match self@.notice {
                Some(n) => r matches Some(s) && s@ == n,
                None => r is None,
            },
    {
        match &self.notice {
            Some(n) => Some(n.as_str()),
            None => None,
        }
    }
}

/// Down moves the selection one row, up to the last row; Up moves it one row
/// back, down to the first; and Down then Up returns to where it was.
pub proof fn lemma_arrows_move_one_row(selected: nat, len: nat)
    requires
        selected < len,
    ensures
        selected + 1 < len ==> moved_selection(selected, 1, len) == selected + 1,
        selected + 1 == len ==> moved_selection(selected, 1, len) == selected,
        selected > 0 ==> moved_selection(selected, -1, len) == selected - 1,
        selected == 0 ==> moved_selection(selected, -1, len) == 0,
        moved_selection(selected, 1, len) < len,
        moved_selection(selected, -1, len) < len,
        selected + 1 < len ==> moved_selection(moved_selection(selected, 1, len), -1, len)
            == selected,
{
}

/// Showing the picker shows the history as it is now, whatever the window
/// showed before, with the newest entry selected; showing the settings starts
/// the draft from the saved settings; either way the window is shown and
/// nothing else about the saved settings changes.
pub proof fn lemma_show_takes_the_current_history(
    m: PasteModel,
    history: Seq<Seq<char>>,
)
    ensures
        shown(m, Pane::Picker, history).entries == history,
        shown(m, Pane::Picker, history).selected == 0,
        shown(m, Pane::Picker, history).pane == Pane::Picker,
        shown(m, Pane::Picker, history).visible,
        shown(m, Pane::Settings, history).draft == m.config,
        shown(m, Pane::Settings, history).pane == Pane::Settings,
        shown(m, Pane::Settings, history).visible,
        shown(m, Pane::Picker, history).config == m.config,
        shown(m, Pane::Settings, history).config == m.config,
{
}

/// Picking hides the window and, when pasting after picking is on, makes the
/// keystroke due exactly `FOCUS_RETURN_DELAY_MS` after the pick.
pub proof fn lemma_pick_schedules_the_paste(m: PasteModel, now_ms: u64)
    requires
        now_ms <= u64::MAX - FOCUS_RETURN_DELAY_MS,
    ensures
        !picked(m, now_ms).visible,
        m.config.paste_on_select ==> picked(m, now_ms).paste_due == Some(
            (now_ms + 180) as u64,
        ),
        !m.config.paste_on_select ==> picked(m, now_ms).paste_due == m.paste_due,
        picked(m, now_ms).entries == m.entries,
        picked(m, now_ms).selected == m.selected,
        picked(m, now_ms).config == m.config,
{
}

/// Hiding the window keeps what it shows and the settings; only visibility,
/// focus and the notice go.
pub proof fn lemma_hide_keeps_the_list(m: PasteModel)
    ensures
        !hidden(m).visible,
        !hidden(m).saw_focus,
        hidden(m).notice is None,
        hidden(m).entries == m.entries,
        hidden(m).selected == m.selected,
        hidden(m).pane == m.pane,
        hidden(m).config == m.config,
        hidden(m).draft == m.draft,
        hidden(m).paste_due == m.paste_due,
{
}

} // verus!

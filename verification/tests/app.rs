use multimpaste::app::{Effect, MenuChoice, MultimPaste, Pane, PasteStep, PickerKeys, SaveNext, Signal};
use multimpaste::clipboard::Clip;
use multimpaste::config::Config;

fn keys() -> PickerKeys {
    PickerKeys { escape: false, enter: false, down: false, up: false, number: None }
}

fn clip_with(items: &[&str]) -> Clip {
    let mut clip = Clip::start(10);
    for item in items {
        clip.remember((*item).to_owned());
    }
    clip
}

#[test]
fn toggle_shows_then_hides() {
    let clip = clip_with(&["a", "b"]);
    let mut app = MultimPaste::new(Config::default());
    assert!(!app.is_visible());
    assert!(app.toggle(&clip) == Effect::FocusApp);
    assert!(app.is_visible());
    assert!(app.pane() == Pane::Picker);
    assert_eq!(app.entries().to_vec(), vec!["b", "a"]);
    assert_eq!(app.selected(), 0);
    assert!(app.toggle(&clip) == Effect::ReleaseFocus);
    assert!(!app.is_visible());
}

#[test]
fn arrows_stay_within_the_list() {
    let mut clip = clip_with(&["a", "b", "c"]);
    let mut app = MultimPaste::new(Config::default());
    app.show(&clip, Pane::Picker);
    let down = PickerKeys { down: true, ..keys() };
    let up = PickerKeys { up: true, ..keys() };
    app.picker_keys(&mut clip, up, 0);
    assert_eq!(app.selected(), 0);
    app.picker_keys(&mut clip, down, 0);
    app.picker_keys(&mut clip, down, 0);
    app.picker_keys(&mut clip, down, 0);
    assert_eq!(app.selected(), 2);
    app.picker_keys(&mut clip, PickerKeys { down: true, up: true, ..keys() }, 0);
    assert_eq!(app.selected(), 2);
    app.picker_keys(&mut clip, up, 0);
    assert_eq!(app.selected(), 1);
}

#[test]
fn enter_picks_the_selection_and_schedules_the_paste() {
    let mut clip = clip_with(&["a", "b", "c"]);
    let mut app = MultimPaste::new(Config::default());
    app.show(&clip, Pane::Picker);
    app.hover(1);
    let e = app.picker_keys(&mut clip, PickerKeys { enter: true, ..keys() }, 1000);
    assert!(e == Effect::ReleaseFocus);
    assert!(!app.is_visible());
    assert_eq!(clip.take_requests(), vec!["b"]);
    assert!(app.pending_paste(1100) == PasteStep::Wait(80));
    assert!(app.pending_paste(1180) == PasteStep::Send);
    assert!(app.pending_paste(1200) == PasteStep::Idle);
}

#[test]
fn number_key_beats_enter_and_escape_beats_both() {
    let mut clip = clip_with(&["a", "b", "c"]);
    let mut app = MultimPaste::new(Config::default());
    app.show(&clip, Pane::Picker);
    app.picker_keys(&mut clip, PickerKeys { escape: true, enter: true, number: Some(2), ..keys() }, 0);
    assert!(!app.is_visible());
    assert!(clip.take_requests().is_empty());
    app.show(&clip, Pane::Picker);
    app.picker_keys(&mut clip, PickerKeys { enter: true, number: Some(2), ..keys() }, 0);
    assert_eq!(clip.take_requests(), vec!["a"]);
}

#[test]
fn picking_past_the_end_does_nothing() {
    let mut clip = clip_with(&["a"]);
    let mut app = MultimPaste::new(Config::default());
    app.show(&clip, Pane::Picker);
    assert!(app.pick(&mut clip, 5, 0) == Effect::Nothing);
    assert!(app.is_visible());
    assert!(clip.take_requests().is_empty());
}

#[test]
fn without_paste_on_select_no_keystroke_is_due() {
    let mut clip = clip_with(&["a"]);
    let config = Config { paste_on_select: false, ..Config::default() };
    let mut app = MultimPaste::new(config);
    app.show(&clip, Pane::Picker);
    app.pick(&mut clip, 0, 0);
    assert!(app.pending_paste(10_000) == PasteStep::Idle);
}

#[test]
fn losing_focus_closes_the_picker_only_after_having_it() {
    let clip = clip_with(&["a"]);
    let mut app = MultimPaste::new(Config::default());
    app.show(&clip, Pane::Picker);
    app.note_focus(false);
    assert!(app.dismiss_if_unfocused(false) == Effect::Nothing);
    assert!(app.is_visible());
    app.note_focus(true);
    assert!(app.dismiss_if_unfocused(true) == Effect::Nothing);
    app.note_focus(false);
    assert!(app.dismiss_if_unfocused(false) == Effect::ReleaseFocus);
    assert!(!app.is_visible());
}

#[test]
fn menu_signals() {
    let clip = clip_with(&["a"]);
    let mut app = MultimPaste::new(Config::default());
    assert!(app.handle_signal(&clip, Signal::Menu(MenuChoice::Settings)) == Effect::FocusApp);
    assert!(app.pane() == Pane::Settings);
    assert!(app.handle_signal(&clip, Signal::Menu(MenuChoice::Quit)) == Effect::CloseWindow);
    assert!(app.handle_signal(&clip, Signal::Menu(MenuChoice::Other)) == Effect::Nothing);
    assert!(app.handle_signal(&clip, Signal::OpenPicker) == Effect::FocusApp);
    assert!(app.pane() == Pane::Picker);
    assert!(app.handle_signal(&clip, Signal::ToggleWindow) == Effect::ReleaseFocus);
}

#[test]
fn back_drops_the_edits() {
    let clip = clip_with(&[]);
    let mut app = MultimPaste::new(Config::default());
    app.show(&clip, Pane::Settings);
    app.set_draft(Config { history_size: 3, ..Config::default() });
    app.back(&clip);
    assert_eq!(app.draft().history_size, 10);
    assert!(app.pane() == Pane::Picker);
}

#[test]
fn save_commits_the_draft_and_applies_the_limit() {
    let mut clip = clip_with(&["a", "b", "c"]);
    let mut app = MultimPaste::new(Config::default());
    app.show(&clip, Pane::Settings);
    app.set_draft(Config { history_size: 2, ..Config::default() });
    assert!(app.shortcut_registered(Ok(())) == SaveNext::Commit);
    let written = app.commit(&mut clip);
    assert_eq!(written.history_size, 2);
    assert_eq!(app.config().history_size, 2);
    assert_eq!(clip.entries(), vec!["c", "b"]);
    app.written(Ok(()));
    assert_eq!(app.notice(), Some("Saved."));
    app.written(Err("disk full".to_owned()));
    assert_eq!(app.notice(), Some("Saved in memory, but writing the file failed: disk full"));
}

#[test]
fn failed_login_item_keeps_the_old_choice() {
    let clip = clip_with(&[]);
    let mut app = MultimPaste::new(Config::default());
    app.show(&clip, Pane::Settings);
    app.set_draft(Config { start_at_login: true, ..Config::default() });
    assert!(app.shortcut_registered(Ok(())) == SaveNext::ApplyLoginItem(true));
    assert!(app.login_item_applied(Err("denied".to_owned())) == SaveNext::Stop);
    assert!(!app.draft().start_at_login);
    assert!(!app.config().start_at_login);
    assert_eq!(app.notice(), Some("Could not change the login item: denied"));
}

#[test]
fn refused_shortcut_stops_the_save() {
    let clip = clip_with(&[]);
    let mut app = MultimPaste::new(Config::default());
    app.show(&clip, Pane::Settings);
    app.set_draft(Config { history_size: 3, ..Config::default() });
    assert!(app.shortcut_registered(Err("no".to_owned())) == SaveNext::Stop);
    assert_eq!(app.notice(), Some("no"));
    assert_eq!(app.config().history_size, 10);
}

#[test]
fn clearing_history_from_settings() {
    let mut clip = clip_with(&["a"]);
    let mut app = MultimPaste::new(Config::default());
    app.show(&clip, Pane::Picker);
    app.show(&clip, Pane::Settings);
    app.clear_history(&mut clip);
    assert!(clip.entries().is_empty());
    assert!(app.entries().is_empty());
    assert_eq!(app.notice(), Some("History cleared."));
}

#[test]
fn number_key_keeps_the_selection_and_schedules_the_paste() {
    let mut clip = clip_with(&["a", "b", "c"]);
    let mut app = MultimPaste::new(Config::default());
    app.show(&clip, Pane::Picker);
    app.hover(1);
    let e = app.picker_keys(&mut clip, PickerKeys { number: Some(2), ..keys() }, 500);
    assert!(e == Effect::ReleaseFocus);
    assert_eq!(app.selected(), 1);
    assert!(!app.is_visible());
    assert_eq!(clip.take_requests(), vec!["a"]);
    assert!(app.pending_paste(500) == PasteStep::Wait(180));
    assert!(app.pending_paste(680) == PasteStep::Send);
}

#[test]
fn a_paste_that_could_not_be_sent_is_told_when_the_picker_opens() {
    let mut clip = clip_with(&["a"]);
    let mut app = MultimPaste::new(Config::default());
    app.show(&clip, Pane::Picker);
    app.pick(&mut clip, 0, 0);
    assert!(app.pending_paste(200) == PasteStep::Send);
    app.paste_failed();
    app.show(&clip, Pane::Picker);
    assert_eq!(
        app.notice(),
        Some("Your pick is on the clipboard, but it could not be pasted for you. Paste it yourself.")
    );
    app.show(&clip, Pane::Picker);
    assert_eq!(app.notice(), None);
}

#[test]
fn the_settings_keep_between_one_and_two_hundred_entries() {
    let mut app = MultimPaste::new(Config::default());
    app.set_draft(Config { history_size: 0, ..Config::default() });
    assert_eq!(app.draft().history_size, 1);
    app.set_draft(Config { history_size: 500, ..Config::default() });
    assert_eq!(app.draft().history_size, 200);
    app.set_draft(Config { history_size: 42, ..Config::default() });
    assert_eq!(app.draft().history_size, 42);
}

#[test]
fn escape_in_settings_returns_to_the_picker() {
    let clip = clip_with(&["a"]);
    let mut app = MultimPaste::new(Config::default());
    app.show(&clip, Pane::Settings);
    assert!(app.settings_keys(&clip, false) == Effect::Nothing);
    assert!(app.pane() == Pane::Settings);
    assert!(app.settings_keys(&clip, true) == Effect::FocusApp);
    assert!(app.pane() == Pane::Picker);
}

use multimpaste::clipboard::{Clip, Watcher};

fn history_of(items: &[&str], limit: usize) -> Vec<String> {
    let mut clip = Clip::start(limit);
    for item in items {
        clip.remember((*item).to_owned());
    }
    clip.entries()
}

#[test]
fn newest_entry_comes_first() {
    assert_eq!(history_of(&["a", "b"], 10), vec!["b", "a"]);
}

#[test]
fn recopying_moves_an_entry_up_instead_of_duplicating_it() {
    assert_eq!(history_of(&["a", "b", "a"], 10), vec!["a", "b"]);
}

#[test]
fn the_limit_drops_the_oldest_entries() {
    assert_eq!(history_of(&["a", "b", "c"], 2), vec!["c", "b"]);
}

#[test]
fn a_zero_limit_keeps_one_entry() {
    assert_eq!(history_of(&["a", "b"], 0), vec!["b"]);
}

#[test]
fn remembering_twice_is_remembering_once() {
    assert_eq!(history_of(&["a", "b", "c", "c"], 10), vec!["c", "b", "a"]);
}

#[test]
fn lowering_the_limit_keeps_the_newest() {
    let mut clip = Clip::start(10);
    for item in ["a", "b", "c", "d"] {
        clip.remember(item.to_owned());
    }
    clip.set_limit(2);
    assert_eq!(clip.entries(), vec!["d", "c"]);
    clip.remember("e".to_owned());
    assert_eq!(clip.entries(), vec!["e", "d"]);
    clip.set_limit(0);
    assert_eq!(clip.entries(), vec!["e"]);
}

#[test]
fn clearing_forgets_everything() {
    let mut clip = Clip::start(10);
    clip.remember("a".to_owned());
    clip.clear();
    assert!(clip.entries().is_empty());
}

#[test]
fn copy_requests_come_out_in_order_once() {
    let mut clip = Clip::start(10);
    clip.copy("a".to_owned());
    clip.copy("b".to_owned());
    assert!(clip.entries().is_empty());
    assert_eq!(clip.take_requests(), vec!["a", "b"]);
    assert!(clip.take_requests().is_empty());
}

#[test]
fn own_copy_goes_to_the_top_and_is_not_echoed() {
    let mut clip = Clip::start(10);
    let mut watcher = Watcher::new();
    watcher.observed(&mut clip, Some("a".to_owned()));
    watcher.observed(&mut clip, Some("b".to_owned()));
    watcher.copied(&mut clip, "a".to_owned(), true);
    assert_eq!(clip.entries(), vec!["a", "b"]);
    watcher.observed(&mut clip, Some("a".to_owned()));
    assert_eq!(clip.entries(), vec!["a", "b"]);
}

#[test]
fn failed_copy_changes_nothing() {
    let mut clip = Clip::start(10);
    let mut watcher = Watcher::new();
    watcher.copied(&mut clip, "a".to_owned(), false);
    assert!(clip.entries().is_empty());
    watcher.observed(&mut clip, Some("a".to_owned()));
    assert_eq!(clip.entries(), vec!["a"]);
}

#[test]
fn blank_or_repeated_clipboard_text_is_ignored() {
    let mut clip = Clip::start(10);
    let mut watcher = Watcher::new();
    watcher.observed(&mut clip, Some("  \n".to_owned()));
    watcher.observed(&mut clip, None);
    assert!(clip.entries().is_empty());
    watcher.observed(&mut clip, Some("x".to_owned()));
    watcher.observed(&mut clip, Some("x".to_owned()));
    assert_eq!(clip.entries(), vec!["x"]);
}

#[test]
fn without_a_watcher_copies_are_dropped() {
    let mut clip = Clip::start(10);
    clip.copy("a".to_owned());
    clip.close_requests();
    assert!(clip.take_requests().is_empty());
    clip.copy("b".to_owned());
    assert!(clip.take_requests().is_empty());
}

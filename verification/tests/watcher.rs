use std::cell::RefCell;

use rustquit::engine::watcher::Watcher;

#[test]
fn windows_are_watched_once_and_forgotten() {
    let mut watcher = Watcher::new(3);
    assert_eq!(watcher.generation, 3);
    assert!(!watcher.had_window);
    watcher.watch_window(1, |_| false, |_| true);
    assert!(watcher.watches(1));
    assert!(!watcher.had_window);
    watcher.watch_window(1, |_| panic!("asked"), |_| panic!("registered"));
    // A standard window counts even if its destruction cannot be reported.
    watcher.watch_window(2, |_| true, |_| false);
    assert!(!watcher.watches(2));
    assert!(watcher.had_window);
    watcher.forget_window(1);
    assert!(!watcher.watches(1));
    assert!(watcher.had_window);
}

#[test]
fn windows_that_are_there_already_are_watched() {
    let asked = RefCell::new(Vec::new());
    let mut watcher = Watcher::new(1);
    watcher.refresh_windows(
        &vec![5, 6, 5],
        |window| {
            asked.borrow_mut().push(window);
            window == 6
        },
        |_| true,
    );
    assert_eq!(*asked.borrow(), vec![5, 6]);
    assert_eq!(watcher.watched_windows, vec![5, 6]);
    assert!(watcher.had_window);
}

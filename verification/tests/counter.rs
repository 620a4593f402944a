use std::cell::Cell;
use std::collections::HashSet;

use rustquit::double::Double;
use rustquit::engine::counter::{
    cg_window_count, effective_window_count, onscreen_window_ids, window_fate, AxWindow, CgWindow,
    WindowCount, WindowFate,
};

fn ax(standard: bool, minimized: bool, window_id: Option<u32>) -> AxWindow {
    AxWindow { standard: Some(standard), minimized: Some(minimized), window_id }
}

fn cg(pid: i64, layer: i64, onscreen: bool, alpha: f64, number: i64) -> CgWindow {
    CgWindow {
        owner_pid: Some(pid),
        layer: Some(layer),
        onscreen,
        alpha: Some(Double { bits: alpha.to_bits() }),
        number: Some(number),
    }
}

#[test]
fn each_window_has_its_fate() {
    let onscreen = Some(HashSet::from([1]));
    assert_eq!(window_fate(&ax(false, false, Some(2)), &onscreen, Some(true)), WindowFate::Ignored);
    assert_eq!(window_fate(&ax(true, true, Some(2)), &onscreen, Some(true)), WindowFate::Effective);
    assert_eq!(window_fate(&ax(true, false, None), &onscreen, Some(true)), WindowFate::Effective);
    assert_eq!(window_fate(&ax(true, false, Some(1)), &onscreen, Some(true)), WindowFate::Effective);
    assert_eq!(window_fate(&ax(true, false, Some(2)), &None, Some(true)), WindowFate::Effective);
    assert_eq!(window_fate(&ax(true, false, Some(2)), &onscreen, Some(false)), WindowFate::Effective);
    assert_eq!(window_fate(&ax(true, false, Some(2)), &onscreen, None), WindowFate::Effective);
    assert_eq!(window_fate(&ax(true, false, Some(2)), &onscreen, Some(true)), WindowFate::OrderedOut);
}

#[test]
fn windows_that_cannot_be_read_count() {
    let unread = AxWindow { standard: None, ..ax(true, false, Some(2)) };
    let onscreen = Some(HashSet::from([1]));
    assert_eq!(window_fate(&unread, &onscreen, Some(true)), WindowFate::Effective);
    let half_read = AxWindow { minimized: None, ..ax(true, false, Some(2)) };
    assert_eq!(window_fate(&half_read, &onscreen, Some(true)), WindowFate::Effective);
    let count = effective_window_count(
        &vec![unread, half_read],
        || panic!("fetched"),
        |_| panic!("asked"),
    );
    assert_eq!(count, WindowCount { effective: 2, ordered_out: 0 });
}

#[test]
fn windows_are_counted() {
    let windows = vec![
        ax(true, false, Some(1)),
        ax(true, false, Some(2)),
        ax(true, false, Some(3)),
        ax(false, false, Some(4)),
        ax(true, true, Some(5)),
    ];
    let count = effective_window_count(
        &windows,
        || Some(HashSet::from([1])),
        |id| Some(id == 2),
    );
    assert_eq!(count, WindowCount { effective: 3, ordered_out: 1 });
}

#[test]
fn the_window_list_is_fetched_only_when_needed() {
    let minimized = vec![ax(true, true, Some(1)), ax(true, false, None), ax(false, false, Some(2))];
    let count = effective_window_count(&minimized, || panic!("fetched"), |_| panic!("asked"));
    assert_eq!(count, WindowCount { effective: 2, ordered_out: 0 });

    let fetches = Cell::new(0);
    let windows = vec![ax(true, false, Some(1)), ax(true, false, Some(2))];
    let count = effective_window_count(
        &windows,
        || {
            fetches.set(fetches.get() + 1);
            None
        },
        |_| panic!("asked"),
    );
    assert_eq!(fetches.get(), 1);
    assert_eq!(count, WindowCount { effective: 2, ordered_out: 0 });
}

#[test]
fn only_visible_normal_windows_of_the_process_count() {
    let list = Some(vec![
        cg(7, 0, true, 1.0, 11),
        cg(7, 0, true, 0.5, 12),
        cg(7, 0, false, 1.0, 13),
        cg(7, 0, true, 0.0, 14),
        cg(7, 25, true, 1.0, 15),
        cg(8, 0, true, 1.0, 16),
        cg(7, 0, true, 1.0, -1),
        cg(7, 0, true, 1.0, 4_294_967_296),
        CgWindow { number: None, ..cg(7, 0, true, 1.0, 0) },
        CgWindow { owner_pid: None, ..cg(7, 0, true, 1.0, 17) },
        CgWindow { layer: None, ..cg(7, 0, true, 1.0, 18) },
        CgWindow { alpha: None, ..cg(7, 0, true, 1.0, 19) },
        cg(7, 0, true, f64::NAN, 20),
    ]);
    assert_eq!(onscreen_window_ids(7, &list), Some(HashSet::from([11, 12])));
    assert_eq!(cg_window_count(7, &list), Some(5));
    assert_eq!(cg_window_count(9, &list), Some(0));
    assert_eq!(onscreen_window_ids(7, &None), None);
    assert_eq!(cg_window_count(7, &None), None);
}

//! Window counting.
//!
//! The primary count walks an app's accessibility windows but does not blindly
//! trust them: apps with close-to-background behaviour order their window out
//! instead of destroying it, and such a hidden window stays listed forever.
//! `effective_window_count` filters those out; `cg_window_count` is the
//! independent second opinion an app must also pass (both zero) before it is
//! quit.
use std::collections::HashSet;
use vstd::prelude::*;

use crate::double::Double;

verus! {

broadcast use vstd::std_specs::hash::group_hash_axioms;

/// Result of a walk over an app's windows.
#[derive(Clone, Copy, PartialEq, Eq, Debug, Structural)]
pub struct WindowCount {
    /// Standard windows that still matter to the user: visible, minimized,
    /// or parked on another Space.
    pub effective: usize,
    /// Standard windows the app ordered out itself (close-to-background
    /// behaviour); they are listed but invisible everywhere.
    pub ordered_out: usize,
}

/// What accessibility says of one window.
#[derive(Clone, Copy, Debug)]
pub struct AxWindow {
    /// A standard window; `None` if that could not be read.
    pub standard: Option<bool>,
    /// A minimized window; `None` if that could not be read.
    pub minimized: Option<bool>,
    /// The window server's number of the window, if it could be read.
    pub window_id: Option<u32>,
}

/// What the window server says of one window.
#[derive(Clone, Copy, Debug)]
pub struct CgWindow {
    pub owner_pid: Option<i64>,
    pub layer: Option<i64>,
    pub onscreen: bool,
    pub alpha: Option<Double>,
    pub number: Option<i64>,
}

/// How a window enters the count.
#[derive(Clone, Copy, PartialEq, Eq, Debug, Structural)]
pub enum WindowFate {
    /// Known not to be a standard window.
    Ignored,
    /// Keeps the app alive.
    Effective,
    /// Hidden by the app itself.
    OrderedOut,
}

/// The window's fate cannot be told without the window server's list.
pub open spec fn needs_list(window: AxWindow) -> bool {
    window.standard == Some(true) && window.minimized == Some(false) && window.window_id is Some
}

/// The window's fate depends on whether it is on a current Space.
pub open spec fn needs_space(window: AxWindow, onscreen: Option<Set<u32>>) -> bool {
    needs_list(window) && onscreen is Some && !onscreen->0.contains(window.window_id->0)
}

/// How a window enters the count, given the windows that are onscreen and
/// whether it is on a current Space. Whatever could not be found out counts the
/// window, so degraded data can only keep an app alive, never quit one
/// wrongly.
pub open spec fn fate(
    window: AxWindow,
    onscreen: Option<Set<u32>>,
    on_current_space: Option<bool>,
) -> WindowFate {
    if window.standard == Some(false) {
        WindowFate::Ignored
    } else if needs_space(window, onscreen) && on_current_space == Some(true) {
        WindowFate::OrderedOut
    } else {
        WindowFate::Effective
    }
}

/// The number of windows with a fate.
pub open spec fn tally(fates: Seq<WindowFate>, wanted: WindowFate) -> nat
    decreases fates.len(),
{
    if fates.len() == 0 {
        0
    } else {
        tally(fates.drop_last(), wanted) + if fates.last() == wanted {
            1nat
        } else {
            0
        }
    }
}

/// The contents of a set that may be missing.
pub open spec fn ids_of(ids: Option<HashSet<u32>>) -> Option<Set<u32>> {
    match ids {
        Some(ids) => Some(ids@),
        None => None,
    }
}

/// How a window enters the count.
pub fn window_fate(
    window: &AxWindow,
    onscreen: &Option<HashSet<u32>>,
    on_current_space: Option<bool>,
) -> (r: WindowFate)
    ensures
        r == fate(*window, ids_of(*onscreen), on_current_space),
{
    match window.standard {
        Some(true) => {},
        Some(false) => {
            return WindowFate::Ignored;
        },
        None => {
            return WindowFate::Effective;
        },
    }
    match window.minimized {
        Some(false) => {},
        _ => {
            return WindowFate::Effective;
        },
    }
    let Some(window_id) = window.window_id else {
        return WindowFate::Effective;
    };
    let Some(onscreen) = onscreen else {
        return WindowFate::Effective;
    };
    if onscreen.contains(&window_id) {
        return WindowFate::Effective;
    }
    match on_current_space {
        Some(true) => WindowFate::OrderedOut,
        _ => WindowFate::Effective,
    }
}

fn is_list_needed(window: &AxWindow) -> (r: bool)
    ensures
        r == needs_list(*window),
{
    let standard = match window.standard {
        Some(standard) => standard,
        None => false,
    };
    let minimized = match window.minimized {
        Some(minimized) => minimized,
        None => true,
    };
    standard && !minimized && window.window_id.is_some()
}

/// Counts the standard windows, apart from those that are ordered out. A window
/// that could not be told to be a standard one counts.
///
/// Per window, cheapest check first:
/// 1. minimized                             -> counts
/// 2. onscreen per the window server's list -> counts
/// 3. offscreen, on an inactive Space only  -> counts (visible after switch)
/// 4. offscreen, yet on a current Space     -> ordered out, does not count
///
/// The list is one snapshot for all windows. It is fetched only once it is
/// needed, so apps whose windows are all minimized never pay for it.
pub fn effective_window_count<L, S>(
    windows: &Vec<AxWindow>,
    onscreen_window_ids: L,
    on_current_space: S,
) -> (r: WindowCount) where L: FnOnce() -> Option<HashSet<u32>>, S: Fn(u32) -> Option<bool>
    requires
        onscreen_window_ids.requires(()),
        forall|id: u32| on_current_space.requires((id,)),
    ensures
        exists|ids: Option<HashSet<u32>>, spaces: Seq<Option<bool>>| #[trigger]
            answers_fit(windows@, onscreen_window_ids, on_current_space, ids, spaces) && {
                let fates = fates_of(windows@, ids_of(ids), spaces);
                &&& r.effective == tally(fates, WindowFate::Effective)
                &&& r.ordered_out == tally(fates, WindowFate::OrderedOut)
            },
{
    // Find the first window that needs the list.
    let mut first: usize = 0;
    while first < windows.len() && !is_list_needed(&windows[first])
        invariant
            first <= windows@.len(),
            forall|i: int| 0 <= i < first ==> !needs_list(#[trigger] windows@[i]),
        decreases windows@.len() - first,
    {
        first = first + 1;
    }
    let ids = if first < windows.len() {
        onscreen_window_ids()
    } else {
        None
    };
    let mut count = WindowCount { effective: 0, ordered_out: 0 };
    let ghost mut spaces: Seq<Option<bool>> = Seq::empty();
    for i in 0..windows.len()
        invariant
            spaces.len() == i,
            forall|id: u32| on_current_space.requires((id,)),
            forall|j: int|
                0 <= j < i && needs_space(#[trigger] windows@[j], ids_of(ids))
                    ==> on_current_space.ensures((windows@[j].window_id->0,), spaces[j]),
            count.effective == tally(
                fates_of(windows@.take(i as int), ids_of(ids), spaces),
                WindowFate::Effective,
            ),
            count.ordered_out == tally(
                fates_of(windows@.take(i as int), ids_of(ids), spaces),
                WindowFate::OrderedOut,
            ),
            count.effective <= i,
            count.ordered_out <= i,
    {
        let window = windows[i];
        let mut space: Option<bool> = None;
        if is_list_needed(&window) {
            if let (Some(id), Some(onscreen)) = (window.window_id, &ids) {
                if !onscreen.contains(&id) {
                    space = on_current_space(id);
                }
            }
        }
        let found = window_fate(&window, &ids, space);
        proof {
            let earlier = fates_of(windows@.take(i as int), ids_of(ids), spaces);
            let later = fates_of(windows@.take(i + 1), ids_of(ids), spaces.push(space));
            assert(later.drop_last() =~= earlier);
            assert(later.last() == found);
            spaces = spaces.push(space);
        }
        match found {
            WindowFate::Ignored => {},
            WindowFate::Effective => {
                count.effective = count.effective + 1;
            },
            WindowFate::OrderedOut => {
                count.ordered_out = count.ordered_out + 1;
            },
        }
    }
    assert(windows@.take(windows@.len() as int) =~= windows@);
    assert(answers_fit(windows@, onscreen_window_ids, on_current_space, ids, spaces));
    count
}

/// The list and the Spaces are what was answered wherever it was asked for.
pub open spec fn answers_fit<L, S>(
    windows: Seq<AxWindow>,
    onscreen_window_ids: L,
    on_current_space: S,
    ids: Option<HashSet<u32>>,
    spaces: Seq<Option<bool>>,
) -> bool where L: FnOnce() -> Option<HashSet<u32>>, S: Fn(u32) -> Option<bool> {
    &&& spaces.len() == windows.len()
    &&& (exists|i: int| 0 <= i < windows.len() && needs_list(#[trigger] windows[i]))
        ==> onscreen_window_ids.ensures((), ids)
    &&& forall|i: int|
        0 <= i < windows.len() && needs_space(#[trigger] windows[i], ids_of(ids))
            ==> on_current_space.ensures((windows[i].window_id->0,), spaces[i])
}

/// The fates of all windows.
pub open spec fn fates_of(
    windows: Seq<AxWindow>,
    onscreen: Option<Set<u32>>,
    spaces: Seq<Option<bool>>,
) -> Seq<WindowFate> {
    Seq::new(windows.len(), |i: int| fate(windows[i], onscreen, spaces[i]))
}

/// A visible normal window of the process: on layer 0, onscreen, not
/// transparent.
pub open spec fn visible_window(pid: i32, window: CgWindow) -> bool {
    &&& window.owner_pid == Some(pid as i64)
    &&& window.layer == Some(0i64)
    &&& window.onscreen
    &&& window.alpha is Some
    &&& window.alpha->0.positive()
}

/// Whether a window is a visible normal one of the process.
///
/// The onscreen requirement is load-bearing, not an optimization. Apps keep
/// permanent phantom windows on layer 0 that are not transparent (per-display
/// tab bars, hidden panels). Counting off-screen windows would therefore veto
/// every quit. Dropping them is still safe: minimized windows are covered by
/// the accessibility count, and a full-screen window on another, inactive Space
/// is reported as onscreen.
fn is_visible_window(pid: i32, window: &CgWindow) -> (r: bool)
    ensures
        r == visible_window(pid, *window),
{
    let owned = match window.owner_pid {
        Some(owner) => owner == pid as i64,
        None => false,
    };
    let normal = match window.layer {
        Some(layer) => layer == 0,
        None => false,
    };
    let opaque = match window.alpha {
        Some(alpha) => alpha.is_positive(),
        None => false,
    };
    owned && normal && window.onscreen && opaque
}

/// The numbers of the process's visible normal windows. A number that no window
/// can have is passed over.
pub open spec fn visible_ids(pid: i32, list: Seq<CgWindow>) -> Set<u32> {
    Set::new(
        |id: u32|
            exists|i: int|
                0 <= i < list.len() && visible_window(pid, #[trigger] list[i]) && list[i].number
                    == Some(id as i64),
    )
}

/// The numbers of the process's visible normal windows; `None` if the window
/// list is unavailable.
pub fn onscreen_window_ids(pid: i32, list: &Option<Vec<CgWindow>>) -> (r: Option<HashSet<u32>>)
    ensures
        ids_of(r) == match *list {
            Some(list) => Some(visible_ids(pid, list@)),
            None => None,
        },
{
    let Some(list) = list else {
        return None;
    };
    let mut ids: HashSet<u32> = HashSet::new();
    assert(ids@ =~= visible_ids(pid, list@.take(0)));
    for i in 0..list.len()
        invariant
            ids@ == visible_ids(pid, list@.take(i as int)),
    {
        let ghost start = ids@;
        let window = list[i];
        let ghost shorter = list@.take(i as int);
        let ghost longer = list@.take(i + 1);
        proof {
            assert(forall|j: int| 0 <= j < i ==> #[trigger] shorter[j] == longer[j]);
            assert(forall|j: int| 0 <= j < i ==> #[trigger] longer[j] == shorter[j]);
            assert(longer[i as int] == window);
        }
        if is_visible_window(pid, &window) {
            if let Some(number) = window.number {
                if 0 <= number && number <= 0xFFFF_FFFF {
                    let id = number as u32;
                    ids.insert(id);
                    assert(ids@ =~= visible_ids(pid, longer)) by {
                        assert forall|k: u32|
                            ids@.contains(k) == visible_ids(pid, longer).contains(k) by {
                            if k == id {
                                assert(visible_window(pid, longer[i as int]));
                            }
                        }
                    }
                }
            }
        }
        assert(ids@ =~= visible_ids(pid, longer));
    }
    assert(list@.take(list@.len() as int) =~= list@);
    Some(ids)
}

/// The number of visible normal windows of the process.
pub open spec fn visible_count(pid: i32, list: Seq<CgWindow>) -> nat {
    list.filter(|window: CgWindow| visible_window(pid, window)).len()
}

/// The number of visible normal windows of the process according to the window
/// server; `None` if the window list is unavailable.
pub fn cg_window_count(pid: i32, list: &Option<Vec<CgWindow>>) -> (r: Option<usize>)
    ensures
        match *list {
            Some(list) => r is Some && r->0 == visible_count(pid, list@),
            None => r is None,
        },
{
    let Some(list) = list else {
        return None;
    };
    let ghost visible = |window: CgWindow| visible_window(pid, window);
    let mut count: usize = 0;
    assert(list@.take(0).filter(visible).len() == 0) by {
        reveal(Seq::filter);
    }
    for i in 0..list.len()
        invariant
            visible == (|window: CgWindow| visible_window(pid, window)),
            count == list@.take(i as int).filter(visible).len(),
            count <= i,
    {
        proof {
            assert(list@.take(i + 1) =~= list@.take(i as int).push(list@[i as int]));
            list@.take(i as int).lemma_filter_push(list@[i as int], visible);
        }
        if is_visible_window(pid, &list[i]) {
            count = count + 1;
        }
    }
    assert(list@.take(list@.len() as int) =~= list@);
    Some(count)
}

/// What could not be found out counts the window. It is taken for hidden only if
/// it is known to be a standard one, known not to be minimized nor onscreen, and
/// known to be on a current Space; it is ignored only if it is known not to be a
/// standard one.
pub proof fn unknown_data_never_hides_a_window(
    window: AxWindow,
    onscreen: Option<Set<u32>>,
    on_current_space: Option<bool>,
)
    ensures
        fate(window, onscreen, on_current_space) == WindowFate::OrderedOut <==> {
            &&& window.standard == Some(true)
            &&& window.minimized == Some(false)
            &&& window.window_id is Some
            &&& onscreen is Some
            &&& !onscreen->0.contains(window.window_id->0)
            &&& on_current_space == Some(true)
        },
        fate(window, onscreen, on_current_space) == WindowFate::Ignored <==> window.standard == Some(
            false,
        ),
        window.standard is None ==> fate(window, onscreen, on_current_space)
            == WindowFate::Effective,
        window.minimized is None ==> fate(window, onscreen, on_current_space)
            != WindowFate::OrderedOut,
        window.window_id is None ==> fate(window, onscreen, on_current_space)
            != WindowFate::OrderedOut,
        fate(window, None, on_current_space) != WindowFate::OrderedOut,
        fate(window, onscreen, None) != WindowFate::OrderedOut,
{
}

/// A window that the window server shows is never taken for hidden; it counts
/// unless it is known not to be a standard one.
pub proof fn visible_windows_are_effective(
    pid: i32,
    list: Seq<CgWindow>,
    at: int,
    window: AxWindow,
    on_current_space: Option<bool>,
)
    requires
        0 <= at < list.len(),
        visible_window(pid, list[at]),
        window.standard != Some(false),
        window.window_id is Some,
        list[at].number == Some(window.window_id->0 as i64),
    ensures
        fate(window, Some(visible_ids(pid, list)), on_current_space) == WindowFate::Effective,
{
    assert(visible_ids(pid, list).contains(window.window_id->0));
}

/// Every window that is not known to be no standard one is counted once: as
/// effective or as ordered out.
pub proof fn every_standard_window_is_counted(
    windows: Seq<AxWindow>,
    onscreen: Option<Set<u32>>,
    spaces: Seq<Option<bool>>,
)
    ensures
        tally(fates_of(windows, onscreen, spaces), WindowFate::Effective) + tally(
            fates_of(windows, onscreen, spaces),
            WindowFate::OrderedOut,
        ) == windows.filter(|window: AxWindow| window.standard != Some(false)).len(),
    decreases windows.len(),
{
    reveal(Seq::filter);
    if windows.len() > 0 {
        let rest = windows.drop_last();
        every_standard_window_is_counted(rest, onscreen, spaces);
        assert(fates_of(windows, onscreen, spaces).drop_last() =~= fates_of(
            rest,
            onscreen,
            spaces,
        ));
    }
}

} // verus!

//! Windows: laws on which count and on which are visible.
use vstd::prelude::*;

use crate::engine::counter::{
    fate, fates_of, tally, visible_count, visible_ids, visible_window, AxWindow, CgWindow,
    WindowFate,
};

verus! {

/// Windows are counted one by one: each adds one to the count of its own kind and
/// to no other.
pub proof fn windows_are_counted_one_by_one(
    fates: Seq<WindowFate>,
    fate_of_next: WindowFate,
    wanted: WindowFate,
)
    ensures
        tally(Seq::empty(), wanted) == 0,
        tally(fates.push(fate_of_next), wanted) == tally(fates, wanted) + if fate_of_next == wanted {
            1nat
        } else {
            0nat
        },
{
    assert(fates.push(fate_of_next).drop_last() =~= fates);
}

/// An app counts as having no window left exactly if each of its windows is known
/// not to be a standard one or was ordered out by the app; and each window is
/// judged on its own.
pub proof fn no_window_is_left_if_none_matters(
    windows: Seq<AxWindow>,
    onscreen: Option<Set<u32>>,
    spaces: Seq<Option<bool>>,
)
    requires
        spaces.len() == windows.len(),
    ensures
        tally(fates_of(windows, onscreen, spaces), WindowFate::Effective) == 0 <==> forall|i: int|
            0 <= i < windows.len() ==> (#[trigger] windows[i]).standard == Some(false) || (
            windows[i].standard == Some(true) && windows[i].minimized == Some(false)
                && windows[i].window_id is Some && onscreen is Some && !onscreen->0.contains(
                windows[i].window_id->0,
            ) && spaces[i] == Some(true)),
        fates_of(windows, onscreen, spaces).len() == windows.len(),
        forall|i: int|
            0 <= i < windows.len() ==> #[trigger] fates_of(windows, onscreen, spaces)[i] == fate(
                windows[i],
                onscreen,
                spaces[i],
            ),
{
    let fates = fates_of(windows, onscreen, spaces);
    none_of_a_kind(fates, WindowFate::Effective);
    if tally(fates, WindowFate::Effective) == 0 {
        assert forall|i: int| 0 <= i < windows.len() implies (#[trigger] windows[i]).standard
            == Some(false) || (windows[i].standard == Some(true) && windows[i].minimized == Some(
            false,
        ) && windows[i].window_id is Some && onscreen is Some && !onscreen->0.contains(
            windows[i].window_id->0,
        ) && spaces[i] == Some(true)) by {
            assert(fates[i] != WindowFate::Effective);
        }
    }
    if forall|i: int|
        0 <= i < windows.len() ==> (#[trigger] windows[i]).standard == Some(false) || (
        windows[i].standard == Some(true) && windows[i].minimized == Some(false)
            && windows[i].window_id is Some && onscreen is Some && !onscreen->0.contains(
            windows[i].window_id->0,
        ) && spaces[i] == Some(true)) {
        assert forall|i: int| 0 <= i < fates.len() implies #[trigger] fates[i]
            != WindowFate::Effective by {
            assert(windows[i] == windows[i]);
        }
    }
}

proof fn none_of_a_kind(fates: Seq<WindowFate>, wanted: WindowFate)
    ensures
        tally(fates, wanted) == 0 <==> forall|i: int|
            0 <= i < fates.len() ==> #[trigger] fates[i] != wanted,
    decreases fates.len(),
{
    if fates.len() > 0 {
        let front = fates.drop_last();
        none_of_a_kind(front, wanted);
        if tally(fates, wanted) == 0 {
            assert forall|i: int| 0 <= i < fates.len() implies #[trigger] fates[i] != wanted by {
                if i < front.len() {
                    assert(front[i] == fates[i]);
                }
            }
        }
        if forall|i: int| 0 <= i < fates.len() ==> #[trigger] fates[i] != wanted {
            assert forall|i: int| 0 <= i < front.len() implies #[trigger] front[i] != wanted by {
                assert(front[i] == fates[i]);
            }
            assert(fates[fates.len() - 1] != wanted);
        }
    }
}

/// A window that a list of the window server tells of is visible exactly if it is
/// the app's own, on the layer of ordinary windows, on screen, and not wholly
/// transparent; what the list does not tell speaks against it.
pub proof fn which_windows_are_visible(pid: i32, window: CgWindow)
    ensures
        visible_window(pid, window) <==> window.owner_pid is Some && window.owner_pid->0 == pid
            && window.layer is Some && window.layer->0 == 0 && window.onscreen && window.alpha is Some
            && 0 < window.alpha->0.bits <= 0x7FF0_0000_0000_0000,
{
    if window.alpha is Some {
        crate::laws::numbers::which_numbers_are_positive(window.alpha->0);
    }
}

/// Visible windows are counted one by one, each number that a visible window has
/// is told, and no other; so with no visible window the count is zero and no
/// number is told.
pub proof fn visible_windows_are_counted(pid: i32, list: Seq<CgWindow>, window: CgWindow, id: u32)
    ensures
        visible_count(pid, Seq::empty()) == 0,
        visible_count(pid, list.push(window)) == visible_count(pid, list) + if visible_window(
            pid,
            window,
        ) {
            1nat
        } else {
            0nat
        },
        !visible_ids(pid, Seq::empty()).contains(id),
        visible_ids(pid, list.push(window)).contains(id) <==> visible_ids(pid, list).contains(id)
            || (visible_window(pid, window) && window.number is Some && window.number->0 == id),
        visible_count(pid, list) == 0 ==> !visible_ids(pid, list).contains(id),
{
    reveal(Seq::filter);
    let seen = |w: CgWindow| visible_window(pid, w);
    list.lemma_filter_push(window, seen);
    let longer = list.push(window);
    if visible_ids(pid, list).contains(id) {
        let i = choose|i: int|
            0 <= i < list.len() && visible_window(pid, #[trigger] list[i]) && list[i].number
                == Some(id as i64);
        assert(longer[i] == list[i]);
        list.lemma_filter_contains(seen, i);
    }
    if visible_window(pid, window) && window.number is Some && window.number->0 == id {
        assert(longer[list.len() as int] == window);
        assert(window.number == Some(id as i64));
    }
    if visible_ids(pid, longer).contains(id) {
        let i = choose|i: int|
            0 <= i < longer.len() && visible_window(pid, #[trigger] longer[i]) && longer[i].number
                == Some(id as i64);
        if i < list.len() {
            assert(list[i] == longer[i]);
        }
    }
}

} // verus!

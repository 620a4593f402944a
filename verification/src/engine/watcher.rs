//! What is known of one observed app: the windows whose destruction is
//! reported, and whether it ever showed a window.
use vstd::prelude::*;

verus! {

/// The state of one observed app. Windows are told apart by numbers that stand
/// for their accessibility elements.
#[derive(Debug)]
pub struct Watcher {
    /// The windows whose destruction will be reported.
    pub watched_windows: Vec<u64>,
    /// The app has shown at least one standard window this session: only then
    /// may it ever be quit automatically.
    pub had_window: bool,
    /// Invalidates delayed quit checks when something happens in between.
    pub generation: u64,
    /// How many standard windows the last recount found ordered out.
    pub last_ordered_out: usize,
}

/// The contents of a watcher.
#[verifier::ext_equal]
pub ghost struct WatcherView {
    pub watched_windows: Seq<u64>,
    pub had_window: bool,
    pub generation: u64,
    pub last_ordered_out: usize,
}

impl View for Watcher {
    type V = WatcherView;

    open spec fn view(&self) -> WatcherView {
        WatcherView {
            watched_windows: self.watched_windows@,
            had_window: self.had_window,
            generation: self.generation,
            last_ordered_out: self.last_ordered_out,
        }
    }
}

/// A watcher that knows of no window yet.
pub open spec fn new_watcher(generation: u64) -> WatcherView {
    WatcherView {
        watched_windows: Seq::empty(),
        had_window: false,
        generation,
        last_ordered_out: 0,
    }
}

/// The watcher after a window that it does not watch yet came up. A standard
/// window is remembered even where its destruction cannot be reported: the app
/// can still be recounted when it is deactivated.
pub open spec fn with_window(
    watcher: WatcherView,
    window: u64,
    standard: bool,
    registered: bool,
) -> WatcherView {
    WatcherView {
        watched_windows: if registered {
            watcher.watched_windows.push(window)
        } else {
            watcher.watched_windows
        },
        had_window: watcher.had_window || standard,
        ..watcher
    }
}

/// Tells other windows from this one.
pub open spec fn other_than(window: u64) -> spec_fn(u64) -> bool {
    |w: u64| w != window
}

/// The watcher without a window.
pub open spec fn without_window(watcher: WatcherView, window: u64) -> WatcherView {
    WatcherView {
        watched_windows: watcher.watched_windows.filter(other_than(window)),
        ..watcher
    }
}

/// What came of a window that was to be watched.
pub open spec fn watched<S, R>(
    before: WatcherView,
    window: u64,
    standard: S,
    register: R,
    after: WatcherView,
) -> bool where S: Fn(u64) -> bool, R: Fn(u64) -> bool {
    if before.watched_windows.contains(window) {
        after == before
    } else {
        exists|is_standard: bool, registered: bool| #[trigger]
            standard.ensures((window,), is_standard) && #[trigger] register.ensures(
                (window,),
                registered,
            ) && after == with_window(before, window, is_standard, registered)
    }
}

/// The states that a watcher went through as windows came to be watched, one
/// after the other.
pub open spec fn watched_in_turn<S, R>(
    states: Seq<WatcherView>,
    windows: Seq<u64>,
    standard: S,
    register: R,
) -> bool where S: Fn(u64) -> bool, R: Fn(u64) -> bool {
    &&& states.len() == windows.len() + 1
    &&& forall|i: int|
        0 <= i < windows.len() ==> watched(
            states[i],
            #[trigger] windows[i],
            standard,
            register,
            states[i + 1],
        )
}

impl Watcher {
    /// A watcher that knows of no window yet.
    pub fn new(generation: u64) -> (r: Watcher)
        ensures
            r@ == new_watcher(generation),
    {
        let watched_windows: Vec<u64> = Vec::new();
        let r = Watcher { watched_windows, had_window: false, generation, last_ordered_out: 0 };
        assert(r@ =~= new_watcher(generation));
        r
    }

    /// Whether the window is watched already.
    pub fn watches(&self, window: u64) -> (r: bool)
        ensures
            r == self@.watched_windows.contains(window),
    {
        for i in 0..self.watched_windows.len()
            invariant
                forall|j: int| 0 <= j < i ==> self.watched_windows@[j] != window,
        {
            if self.watched_windows[i] == window {
                return true;
            }
        }
        false
    }

    /// Notes a window that is not watched yet: whether it is a standard one,
    /// and whether its destruction will be reported.
    pub fn note_window(&mut self, window: u64, standard: bool, registered: bool)
        ensures
            final(self)@ == with_window(old(self)@, window, standard, registered),
    {
        if standard {
            self.had_window = true;
        }
        if registered {
            self.watched_windows.push(window);
        }
    }

    /// Watches a (new) window: finds out whether it is a standard one and asks
    /// for its destruction to be reported. One that is watched already is left
    /// alone.
    pub fn watch_window<S, R>(&mut self, window: u64, standard: S, register: R) where
        S: Fn(u64) -> bool,
        R: Fn(u64) -> bool,

        requires
            forall|w: u64| standard.requires((w,)),
            forall|w: u64| register.requires((w,)),
        ensures
            watched(old(self)@, window, standard, register, final(self)@),
    {
        if self.watches(window) {
            return;
        }
        let is_standard = standard(window);
        let registered = register(window);
        self.note_window(window, is_standard, registered);
    }

    /// Watches the windows that were there before the app was observed.
    pub fn refresh_windows<S, R>(&mut self, windows: &Vec<u64>, standard: S, register: R) where
        S: Fn(u64) -> bool,
        R: Fn(u64) -> bool,

        requires
            forall|w: u64| standard.requires((w,)),
            forall|w: u64| register.requires((w,)),
        ensures
            exists|states: Seq<WatcherView>| #[trigger]
                watched_in_turn(states, windows@, standard, register) && states[0] == old(self)@
                    && states.last() == final(self)@,
    {
        let ghost mut states: Seq<WatcherView> = seq![self@];
        for i in 0..windows.len()
            invariant
                forall|w: u64| standard.requires((w,)),
                forall|w: u64| register.requires((w,)),
                states.len() == i + 1,
                states[0] == old(self)@,
                states.last() == self@,
                forall|j: int|
                    0 <= j < i ==> watched(
                        states[j],
                        #[trigger] windows@[j],
                        standard,
                        register,
                        states[j + 1],
                    ),
        {
            let window: u64 = windows[i];
            if !self.watches(window) {
                let is_standard = standard(window);
                let registered = register(window);
                self.note_window(window, is_standard, registered);
            }
            proof {
                states = states.push(self@);
            }
        }
        assert(watched_in_turn(states, windows@, standard, register));
    }

    /// Drops a destroyed window from the list.
    pub fn forget_window(&mut self, window: u64)
        ensures
            final(self)@ == without_window(old(self)@, window),
    {
        let ghost start = self.watched_windows@;
        let ghost keep = other_than(window);
        let mut rest: Vec<u64> = Vec::new();
        assert(start.take(0).filter(keep) =~= Seq::empty()) by {
            reveal(Seq::filter);
        }
        for i in 0..self.watched_windows.len()
            invariant
                start == self.watched_windows@,
                self@ == old(self)@,
                keep == other_than(window),
                rest@ == start.take(i as int).filter(keep),
        {
            proof {
                assert(start.take(i + 1) =~= start.take(i as int).push(start[i as int]));
                start.take(i as int).lemma_filter_push(start[i as int], keep);
            }
            let w: u64 = self.watched_windows[i];
            if w != window {
                rest.push(w);
            }
        }
        assert(start.take(start.len() as int) =~= start);
        self.watched_windows = rest;
        assert(self@ =~= without_window(old(self)@, window));
    }
}

/// Watching a window that is watched already changes nothing, and a watcher
/// that has seen a standard window never forgets that it did.
pub proof fn a_window_is_watched_once<S, R>(
    before: WatcherView,
    window: u64,
    standard: S,
    register: R,
    after: WatcherView,
) where S: Fn(u64) -> bool, R: Fn(u64) -> bool
    requires
        before.watched_windows.no_duplicates(),
        watched(before, window, standard, register, after),
    ensures
        after.watched_windows.no_duplicates(),
        before.watched_windows.contains(window) ==> after == before,
        before.had_window ==> after.had_window,
        after.generation == before.generation,
{
    if !before.watched_windows.contains(window) {
        assert forall|i: int, j: int|
            0 <= i < after.watched_windows.len() && 0 <= j < after.watched_windows.len() && i
                != j implies after.watched_windows[i] != after.watched_windows[j] by {
            if i < before.watched_windows.len() {
                assert(before.watched_windows.contains(before.watched_windows[i]));
            }
            if j < before.watched_windows.len() {
                assert(before.watched_windows.contains(before.watched_windows[j]));
            }
        }
    }
}

/// Forgetting a window drops that window from those that are watched and no other,
/// and changes nothing else.
pub proof fn forgetting_drops_one_window(watcher: WatcherView, window: u64, other: u64)
    ensures
        without_window(watcher, window).watched_windows.contains(other) <==> other != window
            && watcher.watched_windows.contains(other),
        without_window(watcher, window).had_window == watcher.had_window,
        without_window(watcher, window).generation == watcher.generation,
        without_window(watcher, window).last_ordered_out == watcher.last_ordered_out,
{
    let keep = other_than(window);
    let windows = watcher.watched_windows;
    let left = windows.filter(keep);
    if left.contains(other) {
        let i = choose|i: int| 0 <= i < left.len() && left[i] == other;
        windows.lemma_filter_pred(keep, i);
        windows.lemma_filter_contains_rev(keep, other);
    }
    if windows.contains(other) && other != window {
        let i = choose|i: int| 0 <= i < windows.len() && windows[i] == other;
        windows.lemma_filter_contains(keep, i);
    }
}

/// A window that comes up is watched if its destruction will be reported, and the
/// app has had a window from the first standard one on. Windows that are watched
/// already stay so, and nothing else changes.
pub proof fn a_new_window_is_noted(
    watcher: WatcherView,
    window: u64,
    standard: bool,
    registered: bool,
    other: u64,
)
    ensures
        ({
            let after = with_window(watcher, window, standard, registered);
            &&& after.had_window == (watcher.had_window || standard)
            &&& after.watched_windows.contains(window) == (registered
                || watcher.watched_windows.contains(window))
            &&& other != window ==> after.watched_windows.contains(other)
                == watcher.watched_windows.contains(other)
            &&& after.generation == watcher.generation
            &&& after.last_ordered_out == watcher.last_ordered_out
        }),
        new_watcher(watcher.generation).watched_windows.len() == 0,
        !new_watcher(watcher.generation).had_window,
        new_watcher(watcher.generation).generation == watcher.generation,
        new_watcher(watcher.generation).last_ordered_out == 0,
{
    let after = with_window(watcher, window, standard, registered);
    let windows = watcher.watched_windows;
    if registered {
        assert(after.watched_windows[windows.len() as int] == window);
        assert forall|w: u64| windows.contains(w) implies after.watched_windows.contains(w) by {
            let i = choose|i: int| 0 <= i < windows.len() && windows[i] == w;
            assert(after.watched_windows[i] == w);
        }
        if after.watched_windows.contains(other) && other != window {
            let i = choose|i: int|
                0 <= i < after.watched_windows.len() && after.watched_windows[i] == other;
            assert(windows[i] == other);
        }
    }
}

/// What comes of a window goes by the answers to what is asked about that window:
/// one that is watched already is not asked about, and of any other it is watched
/// exactly if its destruction will be reported, and the app has had a window if it
/// is a standard one.
pub proof fn watching_goes_by_the_answers<S, R>(
    before: WatcherView,
    window: u64,
    standard: S,
    register: R,
    after: WatcherView,
    other: u64,
) where S: Fn(u64) -> bool, R: Fn(u64) -> bool
    requires
        watched(before, window, standard, register, after),
    ensures
        after.generation == before.generation,
        after.last_ordered_out == before.last_ordered_out,
        other != window ==> after.watched_windows.contains(other)
            == before.watched_windows.contains(other),
        before.watched_windows.contains(window) ==> after == before,
        !before.watched_windows.contains(window) ==> {
            &&& register.ensures((window,), after.watched_windows.contains(window))
            &&& after.had_window && !before.had_window ==> standard.ensures((window,), true)
            &&& !after.had_window ==> standard.ensures((window,), false)
            &&& before.had_window ==> after.had_window
        },
{
    if !before.watched_windows.contains(window) {
        let (is_standard, registered) = choose|is_standard: bool, registered: bool| #[trigger]
            standard.ensures((window,), is_standard) && #[trigger] register.ensures(
                (window,),
                registered,
            ) && after == with_window(before, window, is_standard, registered);
        a_new_window_is_noted(before, window, is_standard, registered, other);
    }
}

/// Looking at the windows of an app one after the other forgets none that is
/// watched, watches every one whose destruction is sure to be reported, and finds
/// that the app has had a window exactly if it had before or one that was not
/// watched yet is a standard one.
pub proof fn refreshing_watches_every_window<S, R>(
    states: Seq<WatcherView>,
    windows: Seq<u64>,
    standard: S,
    register: R,
    window: u64,
) where S: Fn(u64) -> bool, R: Fn(u64) -> bool
    requires
        watched_in_turn(states, windows, standard, register),
    ensures
        states.last().generation == states[0].generation,
        states.last().last_ordered_out == states[0].last_ordered_out,
        states[0].watched_windows.contains(window) ==> states.last().watched_windows.contains(
            window,
        ),
        states.last().watched_windows.contains(window) ==> states[0].watched_windows.contains(
            window,
        ) || windows.contains(window),
        windows.contains(window) && !register.ensures((window,), false)
            ==> states.last().watched_windows.contains(window),
        states[0].had_window ==> states.last().had_window,
        windows.contains(window) && !states[0].watched_windows.contains(window)
            && !standard.ensures((window,), false) ==> states.last().had_window,
        states.last().had_window && !states[0].had_window ==> exists|i: int|
            0 <= i < windows.len() && standard.ensures((#[trigger] windows[i],), true),
    decreases windows.len(),
{
    if windows.len() > 0 {
        let front = windows.drop_last();
        let earlier = states.drop_last();
        let last = windows.last();
        let n = windows.len() - 1;
        assert forall|i: int| 0 <= i < front.len() implies watched(
            earlier[i],
            #[trigger] front[i],
            standard,
            register,
            earlier[i + 1],
        ) by {
            assert(front[i] == windows[i]);
        }
        refreshing_watches_every_window(earlier, front, standard, register, window);
        refreshing_watches_every_window(earlier, front, standard, register, last);
        assert(watched(states[n], windows[n], standard, register, states[n + 1]));
        assert(earlier.last() == states[n]);
        watching_goes_by_the_answers(states[n], last, standard, register, states[n + 1], window);
        assert(windows =~= front.push(last));
        assert(windows.contains(window) <==> front.contains(window) || window == last) by {
            if front.contains(window) {
                let i = choose|i: int| 0 <= i < front.len() && front[i] == window;
                assert(windows[i] == window);
            }
            assert(windows[n] == last);
            if windows.contains(window) && window != last {
                let i = choose|i: int| 0 <= i < windows.len() && windows[i] == window;
                assert(front[i] == window);
            }
        }
        if window == last && !states[0].watched_windows.contains(window)
            && states[n].watched_windows.contains(window) {
            assert(front.contains(window));
        }
        if states.last().had_window && !states[0].had_window {
            if states[n].had_window {
                let i = choose|i: int|
                    0 <= i < front.len() && standard.ensures((#[trigger] front[i],), true);
                assert(standard.ensures((windows[i],), true));
            } else {
                assert(standard.ensures((windows[n],), true));
            }
        }
    }
}

} // verus!

//! Which apps started and which terminated, told from successive snapshots of
//! the running apps. A notification would be simpler, but is not posted for
//! menu bar apps, which is exactly what most kept apps are.
use vstd::prelude::*;

verus! {

/// What the system lists of one running app.
#[derive(Debug)]
pub struct ListedApp {
    pub pid: i32,
    pub bundle_id: Option<String>,
    pub name: Option<String>,
    /// A regular Dock app.
    pub regular: bool,
}

/// What is remembered of a running app.
#[derive(Debug)]
pub struct KnownApp {
    pub pid: i32,
    pub bundle_id: String,
    pub name: String,
    /// The app lives in the menu bar or fully in the background, not in the
    /// Dock.
    pub menu_bar: bool,
}

/// The contents of what is remembered of a running app.
pub ghost struct KnownView {
    pub pid: i32,
    pub bundle_id: Seq<char>,
    pub name: Seq<char>,
    pub menu_bar: bool,
}

impl View for KnownApp {
    type V = KnownView;

    open spec fn view(&self) -> KnownView {
        KnownView {
            pid: self.pid,
            bundle_id: self.bundle_id@,
            name: self.name@,
            menu_bar: self.menu_bar,
        }
    }
}

impl Clone for KnownApp {
    fn clone(&self) -> (r: KnownApp)
        ensures
            r@ == self@,
    {
        KnownApp {
            pid: self.pid,
            bundle_id: self.bundle_id.clone(),
            name: self.name.clone(),
            menu_bar: self.menu_bar,
        }
    }
}

/// The contents of a list of remembered apps.
pub open spec fn known_views(apps: Seq<KnownApp>) -> Seq<KnownView> {
    Seq::new(apps.len(), |i: int| apps[i]@)
}

/// The list holds the process.
pub open spec fn holds(apps: Seq<KnownView>, pid: i32) -> bool {
    exists|i: int| 0 <= i < apps.len() && (#[trigger] apps[i]).pid == pid
}

/// No process occurs twice.
pub open spec fn distinct_pids(apps: Seq<KnownView>) -> bool {
    forall|i: int, j: int|
        0 <= i < j < apps.len() ==> (#[trigger] apps[i]).pid != (#[trigger] apps[j]).pid
}

/// What is remembered of an app that has a bundle ID: where it has no name, its
/// bundle ID stands for it.
pub open spec fn remembered(app: ListedApp) -> KnownView {
    KnownView {
        pid: app.pid,
        bundle_id: app.bundle_id->0@,
        name: match app.name {
            Some(name) => name@,
            None => app.bundle_id->0@,
        },
        menu_bar: !app.regular,
    }
}

/// The remembered apps without a process.
pub open spec fn without_pid(apps: Seq<KnownView>, pid: i32) -> Seq<KnownView> {
    apps.filter(|app: KnownView| app.pid != pid)
}

/// The apps that have a bundle ID, each process once, as it was listed last.
pub open spec fn snapshot_of(apps: Seq<ListedApp>) -> Seq<KnownView>
    decreases apps.len(),
{
    if apps.len() == 0 {
        Seq::empty()
    } else {
        let earlier = snapshot_of(apps.drop_last());
        if apps.last().bundle_id is None {
            earlier
        } else {
            without_pid(earlier, apps.last().pid).push(remembered(apps.last()))
        }
    }
}

/// The apps of one list whose processes another does not hold.
pub open spec fn missing_from(apps: Seq<KnownView>, other: Seq<KnownView>) -> Seq<KnownView> {
    apps.filter(|app: KnownView| !holds(other, app.pid))
}

fn is_held(apps: &Vec<KnownApp>, pid: i32) -> (r: bool)
    ensures
        r == holds(known_views(apps@), pid),
{
    for i in 0..apps.len()
        invariant
            forall|j: int| 0 <= j < i ==> (#[trigger] known_views(apps@)[j]).pid != pid,
    {
        if apps[i].pid == pid {
            assert(known_views(apps@)[i as int].pid == pid);
            return true;
        }
    }
    false
}

fn remove_pid(apps: &Vec<KnownApp>, pid: i32) -> (r: Vec<KnownApp>)
    ensures
        known_views(r@) == without_pid(known_views(apps@), pid),
{
    let ghost start = known_views(apps@);
    let ghost keep = |app: KnownView| app.pid != pid;
    let mut r: Vec<KnownApp> = Vec::new();
    assert(start.take(0).filter(keep) =~= Seq::empty()) by {
        reveal(Seq::filter);
    }
    assert(known_views(r@) =~= start.take(0).filter(keep));
    for i in 0..apps.len()
        invariant
            start == known_views(apps@),
            keep == (|app: KnownView| app.pid != pid),
            known_views(r@) == start.take(i as int).filter(keep),
    {
        let ghost kept = known_views(r@);
        proof {
            assert(start.take(i + 1) =~= start.take(i as int).push(start[i as int]));
            start.take(i as int).lemma_filter_push(start[i as int], keep);
        }
        if apps[i].pid != pid {
            r.push(apps[i].clone());
            assert(known_views(r@) =~= kept.push(start[i as int]));
        }
    }
    assert(start.take(start.len() as int) =~= start);
    r
}

/// The apps that have a bundle ID, by their processes.
pub fn snapshot_running_apps(apps: &Vec<ListedApp>) -> (r: Vec<KnownApp>)
    ensures
        known_views(r@) == snapshot_of(apps@),
        distinct_pids(known_views(r@)),
{
    let mut r: Vec<KnownApp> = Vec::new();
    assert(known_views(r@) =~= snapshot_of(apps@.take(0)));
    for i in 0..apps.len()
        invariant
            known_views(r@) == snapshot_of(apps@.take(i as int)),
    {
        let ghost shorter = apps@.take(i as int);
        let ghost longer = apps@.take(i + 1);
        assert(longer.drop_last() =~= shorter);
        assert(longer.last() == apps@[i as int]);
        let app = &apps[i];
        if let Some(bundle_id) = &app.bundle_id {
            let name = match &app.name {
                Some(name) => name.clone(),
                None => bundle_id.clone(),
            };
            r = remove_pid(&r, app.pid);
            let ghost kept = known_views(r@);
            r.push(
                KnownApp { pid: app.pid, bundle_id: bundle_id.clone(), name, menu_bar: !app.regular },
            );
            assert(known_views(r@) =~= kept.push(remembered(apps@[i as int])));
        }
    }
    assert(apps@.take(apps@.len() as int) =~= apps@);
    proof {
        snapshots_have_distinct_pids(apps@);
    }
    r
}

fn collect_missing(apps: &Vec<KnownApp>, other: &Vec<KnownApp>) -> (r: Vec<KnownApp>)
    ensures
        known_views(r@) == missing_from(known_views(apps@), known_views(other@)),
{
    let ghost start = known_views(apps@);
    let ghost keep = |app: KnownView| !holds(known_views(other@), app.pid);
    let mut r: Vec<KnownApp> = Vec::new();
    assert(start.take(0).filter(keep) =~= Seq::empty()) by {
        reveal(Seq::filter);
    }
    assert(known_views(r@) =~= start.take(0).filter(keep));
    for i in 0..apps.len()
        invariant
            start == known_views(apps@),
            keep == (|app: KnownView| !holds(known_views(other@), app.pid)),
            known_views(r@) == start.take(i as int).filter(keep),
    {
        let ghost kept = known_views(r@);
        proof {
            assert(start.take(i + 1) =~= start.take(i as int).push(start[i as int]));
            start.take(i as int).lemma_filter_push(start[i as int], keep);
        }
        if !is_held(other, apps[i].pid) {
            r.push(apps[i].clone());
            assert(known_views(r@) =~= kept.push(start[i as int]));
        }
    }
    assert(start.take(start.len() as int) =~= start);
    r
}

/// What changed between two snapshots.
#[derive(Debug)]
pub struct Changes {
    pub terminated: Vec<KnownApp>,
    pub appeared: Vec<KnownApp>,
}

/// The last snapshot of the running apps.
#[derive(Debug)]
pub struct RunningAppsObserver {
    known: Vec<KnownApp>,
}

impl View for RunningAppsObserver {
    type V = Seq<KnownView>;

    closed spec fn view(&self) -> Seq<KnownView> {
        known_views(self.known@)
    }
}

impl RunningAppsObserver {
    #[verifier::type_invariant]
    spec fn pids_are_distinct(self) -> bool {
        distinct_pids(known_views(self.known@))
    }

    /// Starts from a first snapshot, which holds every process once.
    pub fn new(initial: Vec<KnownApp>) -> (r: RunningAppsObserver)
        requires
            distinct_pids(known_views(initial@)),
        ensures
            r@ == known_views(initial@),
    {
        RunningAppsObserver { known: initial }
    }

    /// Compares the running apps to the last snapshot, and remembers them: every
    /// app that disappeared has terminated, with what was known of it before.
    /// Snapshots hold every process once, and so do the changes.
    pub fn diff_running_apps(&mut self, current: Vec<KnownApp>) -> (r: Changes)
        requires
            distinct_pids(known_views(current@)),
        ensures
            final(self)@ == known_views(current@),
            known_views(r.terminated@) == missing_from(old(self)@, known_views(current@)),
            known_views(r.appeared@) == missing_from(known_views(current@), old(self)@),
            distinct_pids(old(self)@),
            distinct_pids(known_views(r.terminated@)),
            distinct_pids(known_views(r.appeared@)),
    {
        proof {
            use_type_invariant(&*self);
            filter_keeps_distinct(
                self@,
                |app: KnownView| !holds(known_views(current@), app.pid),
            );
            filter_keeps_distinct(
                known_views(current@),
                |app: KnownView| !holds(old(self)@, app.pid),
            );
        }
        let terminated = collect_missing(&self.known, &current);
        let appeared = collect_missing(&current, &self.known);
        self.known = current;
        Changes { terminated, appeared }
    }
}

/// Some of the apps are as distinct as all of them.
proof fn filter_keeps_distinct(apps: Seq<KnownView>, keep: spec_fn(KnownView) -> bool)
    requires
        distinct_pids(apps),
    ensures
        distinct_pids(apps.filter(keep)),
    decreases apps.len(),
{
    reveal(Seq::filter);
    let kept = apps.filter(keep);
    if apps.len() > 0 {
        let rest = apps.drop_last();
        let inner = rest.filter(keep);
        let last = apps.len() - 1;
        filter_keeps_distinct(rest, keep);
        assert forall|i: int, j: int| 0 <= i < j < kept.len() implies (#[trigger] kept[i]).pid != (
        #[trigger] kept[j]).pid by {
            assert(kept[i] == inner[i]);
            if j < inner.len() {
                assert(kept[j] == inner[j]);
            } else {
                assert(inner.contains(inner[i]));
                rest.lemma_filter_contains_rev(keep, inner[i]);
                let k = choose|k: int| 0 <= k < rest.len() && rest[k] == inner[i];
                assert(apps[k].pid != apps[last].pid);
            }
        }
    }
}

/// A snapshot holds every process once.
pub proof fn snapshots_have_distinct_pids(apps: Seq<ListedApp>)
    ensures
        distinct_pids(snapshot_of(apps)),
    decreases apps.len(),
{
    if apps.len() > 0 {
        snapshots_have_distinct_pids(apps.drop_last());
        let earlier = snapshot_of(apps.drop_last());
        let pid = apps.last().pid;
        let keep = |app: KnownView| app.pid != pid;
        filter_keeps_distinct(earlier, keep);
        assert forall|i: int| 0 <= i < without_pid(earlier, pid).len() implies (
        #[trigger] without_pid(earlier, pid)[i]).pid != pid by {
            earlier.lemma_filter_pred(keep, i);
        }
    }
}

/// Between two snapshots, an app has terminated if only the first holds its
/// process, and has appeared if only the second does; nothing is both.
pub proof fn changes_are_exactly_the_differences(
    earlier: Seq<KnownView>,
    later: Seq<KnownView>,
    pid: i32,
)
    ensures
        holds(missing_from(earlier, later), pid) <==> holds(earlier, pid) && !holds(later, pid),
        holds(missing_from(later, earlier), pid) <==> holds(later, pid) && !holds(earlier, pid),
        missing_from(earlier, earlier).len() == 0,
{
    missing_holds(earlier, later, pid);
    missing_holds(later, earlier, pid);
    let same = missing_from(earlier, earlier);
    if same.len() > 0 {
        missing_holds(earlier, earlier, same[0].pid);
        assert(holds(same, same[0].pid));
    }
}

proof fn missing_holds(apps: Seq<KnownView>, other: Seq<KnownView>, pid: i32)
    ensures
        holds(missing_from(apps, other), pid) <==> holds(apps, pid) && !holds(other, pid),
{
    let keep = |app: KnownView| !holds(other, app.pid);
    let missing = missing_from(apps, other);
    if holds(missing, pid) {
        let i = choose|i: int| 0 <= i < missing.len() && (#[trigger] missing[i]).pid == pid;
        apps.lemma_filter_pred(keep, i);
        assert(missing.contains(missing[i]));
        apps.lemma_filter_contains_rev(keep, missing[i]);
        let j = choose|j: int| 0 <= j < apps.len() && apps[j] == missing[i];
        assert(apps[j].pid == pid);
    }
    if holds(apps, pid) && !holds(other, pid) {
        let j = choose|j: int| 0 <= j < apps.len() && (#[trigger] apps[j]).pid == pid;
        apps.lemma_filter_contains(keep, j);
        let i = choose|i: int| 0 <= i < missing.len() && missing[i] == apps[j];
        assert(missing[i].pid == pid);
    }
}

} // verus!

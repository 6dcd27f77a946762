//! The decisions of the profile apply protocol: clear the Dock, add each
//! entry of the profile in order, restart the Dock, record the profile as
//! active. The caller performs each action and reports how it went.
use crate::profiles::{index_of, lemma_index_of, StoreError};
use crate::store::{AppEntry, AppEntryView, Profile, StoreData};
use vstd::prelude::*;

verus! {

/// Where an apply stands.
#[derive(Debug, Clone, Copy, PartialEq, Eq, Structural)]
pub enum ApplyPhase {
    /// Waiting for the removal of all Dock entries.
    RemoveAll,
    /// Waiting to learn whether the bundle of the entry at this index exists.
    Check(usize),
    /// Waiting for the addition of the entry at this index.
    Add(usize),
    /// Waiting for the Dock restart.
    Restart,
    /// Waiting for the active profile to be recorded and saved.
    Record,
    /// All done.
    Finished,
    /// Stopped on a hard error.
    Failed,
}

/// How the last action went.
pub enum ApplyEvent {
    /// It succeeded; for a path check, the bundle exists.
    Succeeded,
    /// The bundle that a path check asked about does not exist.
    Missing,
    /// It failed, with the error text.
    Failed(String),
}

pub ghost enum ApplyEventView {
    Succeeded,
    Missing,
    Failed(Seq<char>),
}

impl View for ApplyEvent {
    type V = ApplyEventView;

    open spec fn view(&self) -> ApplyEventView {
        match self {
            ApplyEvent::Succeeded => ApplyEventView::Succeeded,
            ApplyEvent::Missing => ApplyEventView::Missing,
            ApplyEvent::Failed(m) => ApplyEventView::Failed(m@),
        }
    }
}

/// What the caller does next.
#[derive(Debug)]
pub enum ApplyAction {
    /// Remove all Dock entries without restarting the Dock.
    RemoveAll,
    /// Find out whether the bundle at this path exists.
    CheckPath(String),
    /// Add the bundle at this path without restarting the Dock.
    AddApp(String),
    /// Restart the Dock.
    RestartDock,
    /// Record this profile identifier as the active one and save the store.
    RecordActive(String),
    /// The apply is complete; the warnings may be reported.
    Finish,
    /// The apply stopped with this error.
    Abort(String),
    /// Nothing is left to do.
    Stop,
}

pub ghost enum ApplyActionView {
    RemoveAll,
    CheckPath(Seq<char>),
    AddApp(Seq<char>),
    RestartDock,
    RecordActive(Seq<char>),
    Finish,
    Abort(Seq<char>),
    Stop,
}

impl View for ApplyAction {
    type V = ApplyActionView;

    open spec fn view(&self) -> ApplyActionView {
        match self {
            ApplyAction::RemoveAll => ApplyActionView::RemoveAll,
            ApplyAction::CheckPath(p) => ApplyActionView::CheckPath(p@),
            ApplyAction::AddApp(p) => ApplyActionView::AddApp(p@),
            ApplyAction::RestartDock => ApplyActionView::RestartDock,
            ApplyAction::RecordActive(id) => ApplyActionView::RecordActive(id@),
            ApplyAction::Finish => ApplyActionView::Finish,
            ApplyAction::Abort(m) => ApplyActionView::Abort(m@),
            ApplyAction::Stop => ApplyActionView::Stop,
        }
    }
}

/// One apply of one profile.
pub struct ApplySession {
    profile_id: String,
    apps: Vec<AppEntry>,
    count: usize,
    phase: ApplyPhase,
    warnings: Vec<String>,
    adds: usize,
}

pub ghost struct ApplySessionView {
    pub profile_id: Seq<char>,
    pub apps: Seq<AppEntryView>,
    pub phase: ApplyPhase,
    pub warnings: Seq<Seq<char>>,
    pub adds: nat,
}

impl View for ApplySession {
    type V = ApplySessionView;

    closed spec fn view(&self) -> ApplySessionView {
        ApplySessionView {
            profile_id: self.profile_id@,
            apps: crate::store::entries_view(self.apps@),
            phase: self.phase,
            warnings: self.warnings@.map_values(|w: String| w@),
            adds: self.adds as nat,
        }
    }
}

pub open spec fn not_found_warning(e: AppEntryView) -> Seq<char> {
    e.name + " not found at "@ + e.path
}

pub open spec fn add_failed_warning(e: AppEntryView, detail: Seq<char>) -> Seq<char> {
    "Failed to add "@ + e.name + ": "@ + detail
}

pub open spec fn remove_failed_error(detail: Seq<char>) -> Seq<char> {
    "dockutil --remove failed: "@ + detail
}

pub open spec fn restart_failed_error(detail: Seq<char>) -> Seq<char> {
    "Failed to restart Dock: "@ + detail
}

/// The state and action that come after the entries before index `i` were handled.
pub open spec fn after_entries(s: ApplySessionView, i: int) -> (ApplySessionView, ApplyActionView) {
    if i < s.apps.len() {
        (
            ApplySessionView { phase: ApplyPhase::Check(i as usize), ..s },
            ApplyActionView::CheckPath(s.apps[i].path),
        )
    } else {
        (ApplySessionView { phase: ApplyPhase::Restart, ..s }, ApplyActionView::RestartDock)
    }
}

/// The next state and action, given how the last action went.
pub open spec fn apply_step(s: ApplySessionView, ev: ApplyEventView) -> (
    ApplySessionView,
    ApplyActionView,
) {
    match s.phase {
        ApplyPhase::RemoveAll => match ev {
            ApplyEventView::Succeeded => after_entries(s, 0),
            ApplyEventView::Missing => (
                ApplySessionView { phase: ApplyPhase::Failed, ..s },
                ApplyActionView::Abort(remove_failed_error(seq![])),
            ),
            ApplyEventView::Failed(m) => (
                ApplySessionView { phase: ApplyPhase::Failed, ..s },
                ApplyActionView::Abort(remove_failed_error(m)),
            ),
        },
        ApplyPhase::Check(i) => match ev {
            ApplyEventView::Succeeded => (
                ApplySessionView { phase: ApplyPhase::Add(i), adds: s.adds + 1, ..s },
                ApplyActionView::AddApp(s.apps[i as int].path),
            ),
            _ => after_entries(
                ApplySessionView {
                    warnings: s.warnings.push(not_found_warning(s.apps[i as int])),
                    ..s
                },
                i + 1,
            ),
        },
        ApplyPhase::Add(i) => match ev {
            ApplyEventView::Succeeded => after_entries(s, i + 1),
            ApplyEventView::Missing => after_entries(
                ApplySessionView {
                    warnings: s.warnings.push(add_failed_warning(s.apps[i as int], seq![])),
                    ..s
                },
                i + 1,
            ),
            ApplyEventView::Failed(m) => after_entries(
                ApplySessionView {
                    warnings: s.warnings.push(add_failed_warning(s.apps[i as int], m)),
                    ..s
                },
                i + 1,
            ),
        },
        ApplyPhase::Restart => match ev {
            ApplyEventView::Succeeded => (
                ApplySessionView { phase: ApplyPhase::Record, ..s },
                ApplyActionView::RecordActive(s.profile_id),
            ),
            ApplyEventView::Missing => (
                ApplySessionView { phase: ApplyPhase::Failed, ..s },
                ApplyActionView::Abort(restart_failed_error(seq![])),
            ),
            ApplyEventView::Failed(m) => (
                ApplySessionView { phase: ApplyPhase::Failed, ..s },
                ApplyActionView::Abort(restart_failed_error(m)),
            ),
        },
        ApplyPhase::Record => match ev {
            ApplyEventView::Succeeded => (
                ApplySessionView { phase: ApplyPhase::Finished, ..s },
                ApplyActionView::Finish,
            ),
            ApplyEventView::Missing => (
                ApplySessionView { phase: ApplyPhase::Failed, ..s },
                ApplyActionView::Abort(seq![]),
            ),
            ApplyEventView::Failed(m) => (
                ApplySessionView { phase: ApplyPhase::Failed, ..s },
                ApplyActionView::Abort(m),
            ),
        },
        _ => (s, ApplyActionView::Stop),
    }
}

/// The state after the events `evs`, one step each, starting from `s`.
pub open spec fn run_state(s: ApplySessionView, evs: Seq<ApplyEventView>) -> ApplySessionView
    decreases evs.len(),
{
    if evs.len() == 0 {
        s
    } else {
        apply_step(run_state(s, evs.drop_last()), evs.last()).0
    }
}

/// The actions that the events `evs` bring about, one each, starting from `s`.
pub open spec fn run_actions(s: ApplySessionView, evs: Seq<ApplyEventView>) -> Seq<ApplyActionView>
    decreases evs.len(),
{
    if evs.len() == 0 {
        seq![]
    } else {
        run_actions(s, evs.drop_last()).push(
            apply_step(run_state(s, evs.drop_last()), evs.last()).1,
        )
    }
}

/// When clearing the Dock fails, the apply aborts: no entry is ever added,
/// the active profile is never recorded, and every later event asks for
/// nothing more.
pub proof fn lemma_remove_failure_aborts(
    s: ApplySessionView,
    ev: ApplyEventView,
    later: Seq<ApplyEventView>,
)
    requires
        s.phase == ApplyPhase::RemoveAll,
        !(ev is Succeeded),
    ensures
        apply_step(s, ev).1 is Abort,
        apply_step(s, ev).0.phase == ApplyPhase::Failed,
        run_state(s, seq![ev] + later).adds == s.adds,
        run_state(s, seq![ev] + later).phase == ApplyPhase::Failed,
        run_actions(s, seq![ev] + later).len() == later.len() + 1,
        run_actions(s, seq![ev] + later)[0] == apply_step(s, ev).1,
        forall|i: int|
            1 <= i < later.len() + 1 ==> #[trigger] run_actions(s, seq![ev] + later)[i]
                == ApplyActionView::Stop,
        forall|i: int|
            0 <= i < later.len() + 1 ==> !(#[trigger] run_actions(s, seq![ev] + later)[i] is AddApp)
                && !(run_actions(s, seq![ev] + later)[i] is RecordActive),
    decreases later.len(),
{
    let t = apply_step(s, ev).0;
    let all = seq![ev] + later;
    if later.len() == 0 {
        assert(all =~= seq![ev]);
        assert(all.drop_last() =~= Seq::<ApplyEventView>::empty());
        assert(all.last() == ev);
        assert(run_state(s, all.drop_last()) == s);
        assert(run_actions(s, all.drop_last()) == Seq::<ApplyActionView>::empty());
        assert(run_actions(s, all) =~= seq![apply_step(s, ev).1]);
    } else {
        lemma_remove_failure_aborts(s, ev, later.drop_last());
        assert(all.drop_last() =~= seq![ev] + later.drop_last());
        let prev = run_state(s, all.drop_last());
        assert(prev.phase == ApplyPhase::Failed);
        assert(apply_step(prev, all.last()) == (prev, ApplyActionView::Stop));
    }
}

/// Applying a profile of one entry whose bundle is missing asks for no
/// addition, records one warning, and still restarts the Dock, records the
/// profile as active and finishes.
pub proof fn lemma_missing_entry_is_skipped(s: ApplySessionView)
    requires
        s.phase == ApplyPhase::RemoveAll,
        s.apps.len() == 1,
        s.adds == 0,
        s.warnings.len() == 0,
    ensures
        ({
            let evs = seq![
                ApplyEventView::Succeeded,
                ApplyEventView::Missing,
                ApplyEventView::Succeeded,
                ApplyEventView::Succeeded,
            ];
            &&& run_actions(s, evs) == seq![
                ApplyActionView::CheckPath(s.apps[0].path),
                ApplyActionView::RestartDock,
                ApplyActionView::RecordActive(s.profile_id),
                ApplyActionView::Finish,
            ]
            &&& run_state(s, evs).adds == 0
            &&& run_state(s, evs).warnings == seq![not_found_warning(s.apps[0])]
            &&& run_state(s, evs).phase == ApplyPhase::Finished
        }),
{
    let e1 = ApplyEventView::Succeeded;
    let e2 = ApplyEventView::Missing;
    let evs = seq![e1, e2, e1, e1];
    let s1 = apply_step(s, e1).0;
    let s2 = apply_step(s1, e2).0;
    let s3 = apply_step(s2, e1).0;
    assert(evs.drop_last() =~= seq![e1, e2, e1]);
    assert(evs.drop_last().drop_last() =~= seq![e1, e2]);
    assert(evs.drop_last().drop_last().drop_last() =~= seq![e1]);
    assert(seq![e1].drop_last() =~= Seq::<ApplyEventView>::empty());
    assert(seq![e1].last() == e1);
    assert(seq![e1, e2].last() == e2);
    assert(seq![e1, e2, e1].last() == e1);
    assert(evs.last() == e1);
    assert(run_state(s, Seq::<ApplyEventView>::empty()) == s);
    assert(run_actions(s, Seq::<ApplyEventView>::empty()) == Seq::<ApplyActionView>::empty());
    assert(run_state(s, seq![e1]) == s1);
    assert(run_state(s, seq![e1, e2]) == s2);
    assert(run_state(s, seq![e1, e2, e1]) == s3);
    assert(s2.warnings =~= seq![not_found_warning(s.apps[0])]);
    assert(run_actions(s, seq![e1]) =~= seq![ApplyActionView::CheckPath(s.apps[0].path)]);
    assert(run_actions(s, seq![e1, e2]) =~= seq![
        ApplyActionView::CheckPath(s.apps[0].path),
        ApplyActionView::RestartDock,
    ]);
    assert(run_actions(s, seq![e1, e2, e1]) =~= seq![
        ApplyActionView::CheckPath(s.apps[0].path),
        ApplyActionView::RestartDock,
        ApplyActionView::RecordActive(s.profile_id),
    ]);
    assert(run_actions(s, evs) =~= seq![
        ApplyActionView::CheckPath(s.apps[0].path),
        ApplyActionView::RestartDock,
        ApplyActionView::RecordActive(s.profile_id),
        ApplyActionView::Finish,
    ]);
}

/// Whether the phase fits the entries: an index it names is one of theirs.
pub open spec fn phase_fits(phase: ApplyPhase, n: nat) -> bool {
    match phase {
        ApplyPhase::Check(i) => i < n,
        ApplyPhase::Add(i) => i < n,
        _ => true,
    }
}

fn concat(a: &str, b: &str) -> (r: String)
    ensures
        r@ == a@ + b@,
{
    let mut r = String::new();
    r.append(a);
    r.append(b);
    assert(Seq::<char>::empty() + a@ =~= a@);
    r
}

fn concat3(a: &str, b: &str, c: &str) -> (r: String)
    ensures
        r@ == a@ + b@ + c@,
{
    let mut r = concat(a, b);
    r.append(c);
    r
}

impl ApplySession {
    pub closed spec fn well_formed(&self) -> bool {
        &&& phase_fits(self.phase, self.apps@.len())
        &&& self.count == self.apps@.len()
        &&& self.adds <= self.apps@.len()
        &&& match self.phase {
            ApplyPhase::RemoveAll => self.adds == 0,
            ApplyPhase::Check(i) => self.adds <= i,
            ApplyPhase::Add(i) => self.adds <= i + 1,
            _ => true,
        }
    }

    /// Starts applying the first profile with identifier `id`: the first
    /// action clears the Dock. Fails, with nothing to do, where no profile
    /// has that identifier.
    pub fn begin(data: &StoreData, id: &String) -> (r: Result<(ApplySession, ApplyAction), StoreError>)
        ensures
            ({
                let k = index_of(data@.profiles, id@);
                &&& r is Err <==> k == -1
                &&& r is Err ==> r == Err::<(ApplySession, ApplyAction), StoreError>(
                    StoreError::ProfileNotFound,
                )
                &&& r matches Ok((s, a)) ==> k >= 0 && {
                    &&& s.well_formed()
                    &&& s@ == ApplySessionView {
                        profile_id: id@,
                        apps: data@.profiles[k].apps,
                        phase: ApplyPhase::RemoveAll,
                        warnings: seq![],
                        adds: 0,
                    }
                    &&& a@ == ApplyActionView::RemoveAll
                }
            }),
    {
        match data.profile(id) {
            None => Err(StoreError::ProfileNotFound),
            Some(p) => {
                let count = p.apps.len();
                let s = ApplySession {
                    profile_id: id.clone(),
                    apps: p.apps,
                    count,
                    phase: ApplyPhase::RemoveAll,
                    warnings: Vec::new(),
                    adds: 0,
                };
                assert(s@.warnings =~= Seq::<Seq<char>>::empty());
                Ok((s, ApplyAction::RemoveAll))
            },
        }
    }

    /// How many additions were asked for.
    pub fn adds(&self) -> (r: usize)
        ensures
            r == self@.adds,
    {
        self.adds
    }

    /// The warnings gathered so far, in order.
    pub fn warnings(&self) -> (r: &Vec<String>)
        ensures
            r@.map_values(|w: String| w@) == self@.warnings,
    {
        &self.warnings
    }

    /// Where the apply stands.
    pub fn phase(&self) -> (r: ApplyPhase)
        ensures
            r == self@.phase,
    {
        self.phase
    }

    fn after_entries(&mut self, i: usize) -> (r: ApplyAction)
        requires
            phase_fits(old(self).phase, old(self).apps@.len()),
            old(self).count == old(self).apps@.len(),
            old(self).adds <= i <= old(self)@.apps.len(),
        ensures
            final(self).well_formed(),
            (final(self)@, r@) == after_entries(old(self)@, i as int),
    {
        if i < self.count {
            self.phase = ApplyPhase::Check(i);
            ApplyAction::CheckPath(self.apps[i].path.clone())
        } else {
            self.phase = ApplyPhase::Restart;
            ApplyAction::RestartDock
        }
    }

    fn warn(&mut self, w: String)
        ensures
            final(self)@ == (ApplySessionView { warnings: old(self)@.warnings.push(w@), ..old(self)@ }),
            final(self).well_formed() == old(self).well_formed(),
    {
        let ghost before = self.warnings@;
        self.warnings.push(w);
        assert(self@.warnings =~= before.map_values(|w: String| w@).push(w@));
    }

    /// Takes in how the last action went and gives the next one.
    pub fn step(&mut self, ev: ApplyEvent) -> (r: ApplyAction)
        requires
            old(self).well_formed(),
        ensures
            final(self).well_formed(),
            (final(self)@, r@) == apply_step(old(self)@, ev@),
    {
        match self.phase {
            ApplyPhase::RemoveAll => match ev {
                ApplyEvent::Succeeded => self.after_entries(0),
                ApplyEvent::Missing => {
                    self.phase = ApplyPhase::Failed;
                    let m = concat("dockutil --remove failed: ", "");
                    proof {
                        reveal_strlit("");
                        assert(m@ =~= remove_failed_error(seq![]));
                    }
                    ApplyAction::Abort(m)
                },
                ApplyEvent::Failed(m) => {
                    self.phase = ApplyPhase::Failed;
                    ApplyAction::Abort(concat("dockutil --remove failed: ", m.as_str()))
                },
            },
            ApplyPhase::Check(i) => match ev {
                ApplyEvent::Succeeded => {
                    self.phase = ApplyPhase::Add(i);
                    self.adds = self.adds + 1;
                    ApplyAction::AddApp(self.apps[i].path.clone())
                },
                _ => {
                    let w = concat3(self.apps[i].name.as_str(), " not found at ", self.apps[i].path.as_str());
                    self.warn(w);
                    self.after_entries(i + 1)
                },
            },
            ApplyPhase::Add(i) => match ev {
                ApplyEvent::Succeeded => self.after_entries(i + 1),
                ApplyEvent::Missing => {
                    let w = concat3("Failed to add ", self.apps[i].name.as_str(), ": ");
                    assert(w@ =~= add_failed_warning(self@.apps[i as int], seq![]));
                    self.warn(w);
                    self.after_entries(i + 1)
                },
                ApplyEvent::Failed(m) => {
                    let w = {
                        let mut w = concat3("Failed to add ", self.apps[i].name.as_str(), ": ");
                        w.append(m.as_str());
                        w
                    };
                    self.warn(w);
                    self.after_entries(i + 1)
                },
            },
            ApplyPhase::Restart => match ev {
                ApplyEvent::Succeeded => {
                    self.phase = ApplyPhase::Record;
                    ApplyAction::RecordActive(self.profile_id.clone())
                },
                ApplyEvent::Missing => {
                    self.phase = ApplyPhase::Failed;
                    let m = concat("Failed to restart Dock: ", "");
                    proof {
                        reveal_strlit("");
                        assert(m@ =~= restart_failed_error(seq![]));
                    }
                    ApplyAction::Abort(m)
                },
                ApplyEvent::Failed(m) => {
                    self.phase = ApplyPhase::Failed;
                    ApplyAction::Abort(concat("Failed to restart Dock: ", m.as_str()))
                },
            },
            ApplyPhase::Record => match ev {
                ApplyEvent::Succeeded => {
                    self.phase = ApplyPhase::Finished;
                    ApplyAction::Finish
                },
                ApplyEvent::Missing => {
                    self.phase = ApplyPhase::Failed;
                    let m = String::new();
                    assert(m@ =~= Seq::<char>::empty());
                    ApplyAction::Abort(m)
                },
                ApplyEvent::Failed(m) => {
                    self.phase = ApplyPhase::Failed;
                    ApplyAction::Abort(m)
                },
            },
            _ => ApplyAction::Stop,
        }
    }
}

} // verus!

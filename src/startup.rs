//! The startup sequencer: launches the configured helpers in order and
//! decides, per failure, between aborting the application and going on in a
//! degraded mode.
//!
//! The sequencer does no I/O. The application asks it what to launch next,
//! spawns the process itself, and reports the outcome back.
use vstd::prelude::*;
use crate::env::{compose_env, env_view, merged_env};
use crate::registry::{
    SupervisedProcessRegistry, all_empty, distinct_names, lemma_all_empty_no_handles,
    lemma_index_of_distinct, live_handles, names_of, string_views,
};

verus! {

/// Name of the variable that carries the data directory to every helper.
pub const DATA_DIR_VAR: &'static str = "DATA_DIR";

/// Whether a helper's failure to start is fatal.
#[derive(Clone, Copy, Debug, PartialEq, Eq, Structural)]
pub enum Requirement {
    /// The application cannot run without it.
    Required,
    /// Its capability is unavailable for the session if it fails.
    Optional,
}

/// How to launch one helper.
pub struct LaunchSpec {
    /// Logical name, the helper's key in the registry.
    pub name: String,
    /// Binary or script to run, relative to the application's resources.
    pub program: String,
    pub args: Vec<String>,
    /// The helper's own environment variables.
    pub env: Vec<(String, String)>,
    pub requirement: Requirement,
}

/// Where startup stands.
#[derive(Clone, Copy, Debug, PartialEq, Eq, Structural)]
pub enum StartupPhase {
    /// The data directory has yet to be resolved and created.
    AwaitingDataDir,
    /// Helpers are being launched, in order.
    Launching,
    /// Every helper was tried; the application runs.
    Running,
    /// A fatal error stopped startup; the application must exit non-zero.
    Aborted,
}

/// What the application does after reporting an outcome.
pub enum StartupStep<H> {
    /// Nothing to report: go on.
    Continue,
    /// An optional helper could not be started: show a non-blocking warning.
    Warn { name: String },
    /// The data directory could not be made ready: show a blocking notice
    /// and exit non-zero.
    FatalDataDir,
    /// A required helper could not be started: terminate the handles given,
    /// which are all the helpers started so far, show a blocking notice and
    /// exit non-zero.
    FatalHelper { name: String, terminate: Vec<H> },
}

/// Progress through the list of helpers.
pub struct Progress {
    pub phase: StartupPhase,
    /// How many helpers have been tried.
    pub next: nat,
}

/// The progress once the data directory is ready.
pub open spec fn initial_progress(required: Seq<bool>) -> Progress {
    Progress {
        phase: if required.len() == 0 {
            StartupPhase::Running
        } else {
            StartupPhase::Launching
        },
        next: 0,
    }
}

/// The progress after the helper at `p.next` was tried: a failed required
/// helper aborts; anything else moves on, to `Running` after the last one.
pub open spec fn after_spawn(required: Seq<bool>, p: Progress, spawned: bool) -> Progress {
    if !spawned && required[p.next as int] {
        Progress { phase: StartupPhase::Aborted, next: p.next }
    } else if p.next + 1 == required.len() {
        Progress { phase: StartupPhase::Running, next: p.next + 1 }
    } else {
        Progress { phase: StartupPhase::Launching, next: p.next + 1 }
    }
}

/// The progress after reporting the outcomes given, in order, once the data
/// directory is ready. Outcomes past the end of launching change nothing.
pub open spec fn run_startup(required: Seq<bool>, outcomes: Seq<bool>) -> Progress
    decreases outcomes.len(),
{
    if outcomes.len() == 0 {
        initial_progress(required)
    } else {
        let p = run_startup(required, outcomes.drop_last());
        if p.phase == StartupPhase::Launching {
            after_spawn(required, p, outcomes.last())
        } else {
            p
        }
    }
}

/// Slots follow the outcomes: one tried before `next` is populated exactly
/// when it was spawned, one not yet tried is empty.
pub open spec fn slots_follow<H>(
    slots: Seq<(Seq<char>, Option<H>)>,
    outcomes: Seq<bool>,
    next: nat,
) -> bool {
    &&& forall|k: int| 0 <= k < next ==> ((#[trigger] slots[k]).1 is Some <==> outcomes[k])
    &&& forall|k: int| next <= k < slots.len() ==> (#[trigger] slots[k]).1 is None
}

pub struct StartupSequencer<H> {
    specs: Vec<LaunchSpec>,
    registry: SupervisedProcessRegistry<H>,
    shared_env: Vec<(String, String)>,
    phase: StartupPhase,
    next: usize,
    outcomes: Ghost<Seq<bool>>,
    reported: Ghost<Option<Seq<bool>>>,
}

impl<H> StartupSequencer<H> {
    /// The logical names of the configured helpers, in launch order.
    pub open spec fn names(&self) -> Seq<Seq<char>> {
        self.specs().map_values(|s: LaunchSpec| s.name@)
    }

    /// For each configured helper, whether it is required.
    pub open spec fn required(&self) -> Seq<bool> {
        self.specs().map_values(|s: LaunchSpec| s.requirement == Requirement::Required)
    }

    /// The configured helpers.
    pub closed spec fn specs(&self) -> Seq<LaunchSpec> {
        self.specs@
    }

    pub closed spec fn progress(&self) -> Progress {
        Progress { phase: self.phase, next: self.next as nat }
    }

    /// For each helper tried so far, whether it was spawned.
    pub closed spec fn outcomes(&self) -> Seq<bool> {
        self.outcomes@
    }

    /// Every spawn outcome reported since the data directory became ready,
    /// or `None` while it is not.
    pub closed spec fn reported(&self) -> Option<Seq<bool>> {
        self.reported@
    }

    /// The registry's table.
    pub closed spec fn slots(&self) -> Seq<(Seq<char>, Option<H>)> {
        self.registry@
    }

    /// The variables shared by every helper.
    pub closed spec fn shared_env(&self) -> Seq<(Seq<char>, Seq<char>)> {
        env_view(self.shared_env@)
    }

    pub closed spec fn wf(&self) -> bool {
        &&& self.registry.wf()
        &&& names_of(self.registry@) == self.names()
        &&& self.next <= self.specs@.len()
        &&& self.outcomes@.len() == self.next
        &&& forall|k: int|
            0 <= k < self.next && !(#[trigger] self.outcomes@[k]) ==> !self.required()[k]
        &&& self.reported@ matches Some(o) ==> self.progress() == run_startup(self.required(), o)
        &&& self.phase == StartupPhase::AwaitingDataDir ==> self.reported@ is None
        &&& match self.phase {
            StartupPhase::AwaitingDataDir => self.next == 0 && all_empty(self.registry@),
            StartupPhase::Launching => self.next < self.specs@.len() && slots_follow(
                self.registry@,
                self.outcomes@,
                self.next as nat,
            ),
            StartupPhase::Running => self.next == self.specs@.len() && slots_follow(
                self.registry@,
                self.outcomes@,
                self.next as nat,
            ),
            StartupPhase::Aborted => all_empty(self.registry@),
        }
    }

    /// A sequencer for the given helpers, waiting for the data directory,
    /// with one empty slot per helper. Returns `None` when two helpers share
    /// a name.
    pub fn new(specs: Vec<LaunchSpec>) -> (r: Option<Self>)
        ensures
            r is Some <==> distinct_names(specs@.map_values(|s: LaunchSpec| s.name@)),
            r matches Some(seq) ==> {
                &&& seq.wf()
                &&& seq.specs() == specs@
                &&& seq.progress() == (Progress { phase: StartupPhase::AwaitingDataDir, next: 0 })
                &&& seq.reported() is None
                &&& seq.shared_env().len() == 0
                &&& names_of(seq.slots()) == seq.names()
                &&& all_empty(seq.slots())
                &&& live_handles(seq.slots()) == Seq::<H>::empty()
            },
    {
        let ghost want = specs@.map_values(|s: LaunchSpec| s.name@);
        let mut names: Vec<String> = Vec::new();
        let mut i: usize = 0;
        while i < specs.len()
            invariant
                i <= specs@.len(),
                want == specs@.map_values(|s: LaunchSpec| s.name@),
                names@.len() == i,
                string_views(names@) == want.take(i as int),
            decreases specs@.len() - i,
        {
            let ghost prev = names@;
            names.push(specs[i].name.clone());
            assert(names@ == prev.push(specs@[i as int].name));
            assert forall|k: int| 0 <= k < i + 1 implies #[trigger] string_views(names@)[k]
                == want.take(i + 1)[k] by {
                if k < i {
                    assert(string_views(prev)[k] == want.take(i as int)[k]);
                }
            }
            assert(string_views(names@) =~= want.take(i + 1));
            i = i + 1;
        }
        assert(want.take(specs@.len() as int) =~= want);
        match SupervisedProcessRegistry::from_names(names) {
            None => None,
            Some(registry) => {
                let seq = StartupSequencer {
                    specs,
                    registry,
                    shared_env: Vec::new(),
                    phase: StartupPhase::AwaitingDataDir,
                    next: 0,
                    outcomes: Ghost(Seq::empty()),
                    reported: Ghost(None),
                };
                assert(seq.names() == want);
                proof {
                    lemma_all_empty_no_handles(seq.slots());
                }
                Some(seq)
            },
        }
    }

    pub fn phase(&self) -> (r: StartupPhase)
        ensures
            r == self.progress().phase,
    {
        self.phase
    }

    /// Reports the data directory: its path once it exists, or `None` when
    /// it could not be resolved or created, which is fatal.
    pub fn on_data_dir(&mut self, dir: Option<String>) -> (r: StartupStep<H>)
        requires
            old(self).wf(),
            old(self).progress().phase == StartupPhase::AwaitingDataDir,
        ensures
            final(self).wf(),
            final(self).specs() == old(self).specs(),
            final(self).slots() == old(self).slots(),
            final(self).outcomes() == old(self).outcomes(),
            match dir {
                None => {
                    &&& r is FatalDataDir
                    &&& final(self).reported() is None
                    &&& final(self).progress() == (Progress {
                        phase: StartupPhase::Aborted,
                        next: 0,
                    })
                },
                Some(d) => {
                    &&& r is Continue
                    &&& final(self).progress() == initial_progress(old(self).required())
                    &&& final(self).reported() == Some(Seq::<bool>::empty())
                    &&& final(self).shared_env() == seq![(DATA_DIR_VAR@, d@)]
                },
            },
    {
        match dir {
            None => {
                self.phase = StartupPhase::Aborted;
                StartupStep::FatalDataDir
            },
            Some(d) => {
                let mut shared: Vec<(String, String)> = Vec::new();
                shared.push((DATA_DIR_VAR.to_string(), d));
                self.shared_env = shared;
                assert(self.shared_env() =~= seq![(DATA_DIR_VAR@, d@)]);
                self.phase = if self.specs.len() == 0 {
                    StartupPhase::Running
                } else {
                    StartupPhase::Launching
                };
                self.reported = Ghost(Some(Seq::empty()));
                StartupStep::Continue
            },
        }
    }

    /// The helper to launch now, while launching.
    pub fn next_launch(&self) -> (r: Option<usize>)
        requires
            self.wf(),
        ensures
            self.progress().phase == StartupPhase::Launching ==> r == Some(
                self.progress().next as usize,
            ),
            self.progress().phase != StartupPhase::Launching ==> r is None,
            r matches Some(i) ==> i < self.specs().len(),
    {
        if self.phase == StartupPhase::Launching {
            Some(self.next)
        } else {
            None
        }
    }

    /// How to launch helper `i`.
    pub fn spec(&self, i: usize) -> (r: &LaunchSpec)
        requires
            i < self.specs().len(),
        ensures
            *r == self.specs()[i as int],
    {
        &self.specs[i]
    }

    /// The environment for helper `i`: the shared variables merged with its own.
    pub fn launch_env(&self, i: usize) -> (r: Vec<(String, String)>)
        requires
            i < self.specs().len(),
        ensures
            env_view(r@) == merged_env(self.shared_env(), env_view(self.specs()[i as int].env@)),
    {
        compose_env(&self.shared_env, &self.specs[i].env)
    }

    /// Reports the outcome of launching the current helper: its handle, or
    /// `None` when it could not be located or spawned.
    pub fn on_spawn(&mut self, outcome: Option<H>) -> (r: StartupStep<H>)
        requires
            old(self).wf(),
            old(self).progress().phase == StartupPhase::Launching,
        ensures
            final(self).wf(),
            final(self).specs() == old(self).specs(),
            final(self).shared_env() == old(self).shared_env(),
            final(self).progress() == after_spawn(
                old(self).required(),
                old(self).progress(),
                outcome is Some,
            ),
            old(self).reported() matches Some(o) ==> final(self).reported() == Some(
                o.push(outcome is Some),
            ),
            old(self).reported() is None ==> final(self).reported() is None,
            ({
                let i = old(self).progress().next as int;
                let name = old(self).names()[i];
                match outcome {
                    Some(h) => {
                        &&& r is Continue
                        &&& final(self).outcomes() == old(self).outcomes().push(true)
                        &&& final(self).slots() == old(self).slots().update(i, (name, Some(h)))
                    },
                    None => if old(self).required()[i] {
                        &&& r matches StartupStep::FatalHelper { name: n, terminate } && n@
                            == name && terminate@ == live_handles(old(self).slots())
                        &&& names_of(final(self).slots()) == old(self).names()
                        &&& all_empty(final(self).slots())
                    } else {
                        &&& r matches StartupStep::Warn { name: n } && n@ == name
                        &&& final(self).outcomes() == old(self).outcomes().push(false)
                        &&& final(self).slots() == old(self).slots()
                    },
                }
            }),
    {
        let i = self.next;
        proof {
            lemma_index_of_distinct(names_of(self.registry@), i as int);
        }
        let name = self.specs[i].name.clone();
        let ghost spawned = outcome is Some;
        proof {
            if let Some(o) = self.reported@ {
                assert(o.push(spawned).drop_last() =~= o);
            }
            self.reported = Ghost(
                match self.reported@ {
                    Some(o) => Some(o.push(spawned)),
                    None => None,
                },
            );
        }
        match outcome {
            Some(h) => {
                assert(self.registry.handle_of(name@) is None);
                self.registry.set(&name, h);
                self.outcomes = Ghost(self.outcomes@.push(true));
                self.advance();
                assert(names_of(self.registry@) =~= self.names());
                StartupStep::Continue
            },
            None => {
                if self.specs[i].requirement == Requirement::Required {
                    let terminate = self.registry.kill_all();
                    self.phase = StartupPhase::Aborted;
                    StartupStep::FatalHelper { name, terminate }
                } else {
                    self.outcomes = Ghost(self.outcomes@.push(false));
                    self.advance();
                    StartupStep::Warn { name }
                }
            },
        }
    }

    /// Once the data directory is ready, the sequencer stands where the
    /// outcomes reported so far lead.
    pub proof fn lemma_progress_follows_reports(&self)
        requires
            self.wf(),
            self.reported() is Some,
        ensures
            self.progress() == run_startup(self.required(), self.reported()->Some_0),
    {
    }

    fn advance(&mut self)
        requires
            old(self).next < old(self).specs@.len(),
        ensures
            final(self).next == old(self).next + 1,
            final(self).phase == (if old(self).next + 1 == old(self).specs@.len() {
                StartupPhase::Running
            } else {
                StartupPhase::Launching
            }),
            final(self).specs == old(self).specs,
            final(self).registry == old(self).registry,
            final(self).shared_env == old(self).shared_env,
            final(self).outcomes == old(self).outcomes,
            final(self).reported == old(self).reported,
    {
        let n = self.specs.len();
        self.next = self.next + 1;
        self.phase = if self.next == n {
            StartupPhase::Running
        } else {
            StartupPhase::Launching
        };
    }

    /// The registry once every helper was tried: one slot per configured
    /// name, populated exactly for the helpers that were spawned; the only
    /// empty slots are those of optional helpers.
    pub fn into_registry(self) -> (r: SupervisedProcessRegistry<H>)
        requires
            self.wf(),
            self.progress().phase == StartupPhase::Running,
        ensures
            r.wf(),
            r@ == self.slots(),
            names_of(r@) == self.names(),
            self.outcomes().len() == self.specs().len(),
            forall|k: int| 0 <= k < r@.len() ==> ((#[trigger] r@[k]).1 is Some <==> self.outcomes()[k]),
            forall|k: int| 0 <= k < r@.len() && (#[trigger] r@[k]).1 is None ==> !self.required()[k],
    {
        assert(names_of(self.registry@).len() == self.registry@.len());
        assert(self.names().len() == self.specs@.len());
        assert(self.required().len() == self.specs@.len());
        self.registry
    }
}

/// Every required helper among the first `n` was spawned.
pub open spec fn required_spawned(required: Seq<bool>, outcomes: Seq<bool>, n: nat) -> bool {
    forall|i: int| 0 <= i < n && #[trigger] required[i] ==> outcomes[i]
}

/// Where startup can stand after the first `m` outcomes.
proof fn lemma_run_shape(required: Seq<bool>, outcomes: Seq<bool>, m: int)
    requires
        0 <= m <= outcomes.len(),
    ensures
        ({
            let p = run_startup(required, outcomes.take(m));
            &&& p.phase != StartupPhase::AwaitingDataDir
            &&& p.next <= m
            &&& p.phase == StartupPhase::Launching ==> p.next == m && m < required.len()
            &&& p.phase == StartupPhase::Running ==> p.next == required.len()
            &&& p.phase != StartupPhase::Aborted ==> required_spawned(required, outcomes, p.next)
            &&& p.phase == StartupPhase::Aborted ==> {
                &&& p.next < m
                &&& p.next < required.len()
                &&& required[p.next as int]
                &&& !outcomes[p.next as int]
                &&& required_spawned(required, outcomes, p.next)
            }
        }),
    decreases m,
{
    if m > 0 {
        lemma_run_shape(required, outcomes, m - 1);
        assert(outcomes.take(m).drop_last() =~= outcomes.take(m - 1));
        assert(outcomes.take(m).last() == outcomes[m - 1]);
    }
}

/// A required helper that fails to start aborts startup: the application
/// never reaches `Running`, and launching stops at the first required
/// helper that failed, at or before this one.
pub proof fn lemma_required_failure_aborts(required: Seq<bool>, outcomes: Seq<bool>, k: int)
    requires
        0 <= k < outcomes.len(),
        k < required.len(),
        required[k],
        !outcomes[k],
    ensures
        run_startup(required, outcomes).phase == StartupPhase::Aborted,
        run_startup(required, outcomes).next <= k,
{
    lemma_run_shape(required, outcomes, outcomes.len() as int);
    assert(outcomes.take(outcomes.len() as int) =~= outcomes);
    let p = run_startup(required, outcomes);
    if p.next > k {
        assert(required[k]);
    }
}

/// Failures of optional helpers only degrade: when every required helper
/// starts, startup tries every helper and reaches `Running`.
pub proof fn lemma_optional_failures_degrade(required: Seq<bool>, outcomes: Seq<bool>)
    requires
        outcomes.len() == required.len(),
        required_spawned(required, outcomes, required.len()),
    ensures
        run_startup(required, outcomes) == (Progress {
            phase: StartupPhase::Running,
            next: required.len(),
        }),
{
    lemma_run_shape(required, outcomes, outcomes.len() as int);
    assert(outcomes.take(outcomes.len() as int) =~= outcomes);
    let p = run_startup(required, outcomes);
    if p.phase == StartupPhase::Aborted {
        assert(required[p.next as int]);
    }
}

} // verus!

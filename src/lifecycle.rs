//! The lifecycle coordinator: a table from UI lifecycle signals to
//! supervisor actions, and the registry it keeps.
use vstd::prelude::*;
use crate::registry::{
    SupervisedProcessRegistry, all_empty, lemma_all_empty_no_handles, live_handles, names_of,
    populated_count,
};

verus! {

/// The application as a whole.
#[derive(Clone, Copy, Debug, PartialEq, Eq, Structural)]
pub enum AppState {
    /// The window is visible or hidden; the helpers are alive.
    Running,
    /// The helpers have been killed and the process is exiting.
    Terminating,
}

/// A lifecycle signal delivered by the UI framework.
#[derive(Clone, Copy, Debug, PartialEq, Eq, Structural)]
pub enum Signal {
    WindowCloseRequested,
    TrayShow,
    TrayLeftClick,
    TrayQuit,
    ExitRequested,
    Exit,
}

/// What the application must do in answer to a signal.
#[derive(Clone, Copy, Debug, PartialEq, Eq, Structural)]
pub enum Action {
    /// Suppress the default close and hide the window instead.
    HideWindow,
    /// Show the window and give it focus.
    ShowWindow,
    /// Terminate the handed-out helpers, then force the application to exit.
    KillAllAndExit,
    /// Terminate the handed-out helpers; the framework is already exiting.
    KillAll,
}

/// Tray menu identifier of the "show main window" entry.
pub const MENU_SHOW: &'static str = "show";

/// Tray menu identifier of the "quit" entry.
pub const MENU_QUIT: &'static str = "quit";

/// The signals on which every helper is killed.
pub open spec fn kills_helpers(signal: Signal) -> bool {
    match signal {
        Signal::TrayQuit | Signal::ExitRequested | Signal::Exit => true,
        _ => false,
    }
}

/// The action the table gives for a signal.
pub open spec fn action_for(signal: Signal) -> Action {
    match signal {
        Signal::WindowCloseRequested => Action::HideWindow,
        Signal::TrayShow | Signal::TrayLeftClick => Action::ShowWindow,
        Signal::TrayQuit => Action::KillAllAndExit,
        Signal::ExitRequested | Signal::Exit => Action::KillAll,
    }
}

/// The state the table gives after a signal.
pub open spec fn next_state(state: AppState, signal: Signal) -> AppState {
    if kills_helpers(signal) {
        AppState::Terminating
    } else {
        state
    }
}

/// The signal a tray menu entry stands for, by its identifier.
pub fn menu_signal(id: &String) -> (r: Option<Signal>)
    ensures
        id@ == MENU_SHOW@ ==> r == Some(Signal::TrayShow),
        id@ != MENU_SHOW@ && id@ == MENU_QUIT@ ==> r == Some(Signal::TrayQuit),
        id@ != MENU_SHOW@ && id@ != MENU_QUIT@ ==> r is None,
{
    if id.eq(&MENU_SHOW.to_string()) {
        Some(Signal::TrayShow)
    } else if id.eq(&MENU_QUIT.to_string()) {
        Some(Signal::TrayQuit)
    } else {
        None
    }
}

/// The action and next state for a signal, as a pure function of the
/// current state and the signal.
pub fn transition(state: AppState, signal: Signal) -> (r: (Action, AppState))
    ensures
        r == (action_for(signal), next_state(state, signal)),
{
    let action = match signal {
        Signal::WindowCloseRequested => Action::HideWindow,
        Signal::TrayShow | Signal::TrayLeftClick => Action::ShowWindow,
        Signal::TrayQuit => Action::KillAllAndExit,
        Signal::ExitRequested | Signal::Exit => Action::KillAll,
    };
    let next = match signal {
        Signal::TrayQuit | Signal::ExitRequested | Signal::Exit => AppState::Terminating,
        _ => state,
    };
    (action, next)
}

/// The model of a coordinator: the application state and the registry's table.
pub type CoordinatorModel<H> = (AppState, Seq<(Seq<char>, Option<H>)>);

/// What handling one signal does: the table's action and state, and either
/// every slot killed with its handles handed out, or nothing killed at all.
pub open spec fn signal_step<H>(
    before: CoordinatorModel<H>,
    signal: Signal,
    after: CoordinatorModel<H>,
    action: Action,
    terminated: Seq<H>,
) -> bool {
    &&& action == action_for(signal)
    &&& after.0 == next_state(before.0, signal)
    &&& if kills_helpers(signal) {
        &&& names_of(after.1) == names_of(before.1)
        &&& all_empty(after.1)
        &&& terminated == live_handles(before.1)
    } else {
        &&& after.1 == before.1
        &&& terminated == Seq::<H>::empty()
    }
}

/// Maps lifecycle signals onto the registry of helpers. It is the only
/// component that kills registered helpers after startup.
pub struct LifecycleCoordinator<H> {
    state: AppState,
    registry: SupervisedProcessRegistry<H>,
}

impl<H> View for LifecycleCoordinator<H> {
    type V = CoordinatorModel<H>;

    closed spec fn view(&self) -> CoordinatorModel<H> {
        (self.state, self.registry@)
    }
}

impl<H> LifecycleCoordinator<H> {
    pub closed spec fn wf(&self) -> bool {
        self.registry.wf()
    }

    /// A running coordinator over the registry that startup produced.
    pub fn new(registry: SupervisedProcessRegistry<H>) -> (c: Self)
        requires
            registry.wf(),
        ensures
            c.wf(),
            c@ == (AppState::Running, registry@),
    {
        LifecycleCoordinator { state: AppState::Running, registry }
    }

    pub fn state(&self) -> (r: AppState)
        ensures
            r == self@.0,
    {
        self.state
    }

    pub fn registry(&self) -> (r: &SupervisedProcessRegistry<H>)
        ensures
            r@ == self@.1,
    {
        &self.registry
    }

    /// Handles one signal. Returns the action to perform and the handles to
    /// terminate; these are non-empty only on a quit or exit signal, and only
    /// for helpers that were still alive.
    pub fn on_signal(&mut self, signal: Signal) -> (r: (Action, Vec<H>))
        requires
            old(self).wf(),
        ensures
            final(self).wf(),
            signal_step(old(self)@, signal, final(self)@, r.0, r.1@),
    {
        let (action, next) = transition(self.state, signal);
        self.state = next;
        let terminated = match action {
            Action::KillAllAndExit | Action::KillAll => self.registry.kill_all(),
            _ => Vec::new(),
        };
        (action, terminated)
    }
}

/// However often the window is closed (or shown), no helper is killed: the
/// number of populated slots never drops, and the application keeps running.
pub proof fn lemma_close_keeps_helpers<H>(
    models: Seq<CoordinatorModel<H>>,
    signals: Seq<Signal>,
    actions: Seq<Action>,
    terminated: Seq<Seq<H>>,
)
    requires
        models.len() == signals.len() + 1,
        actions.len() == signals.len(),
        terminated.len() == signals.len(),
        forall|i: int|
            0 <= i < signals.len() ==> signal_step(
                models[i],
                #[trigger] signals[i],
                models[i + 1],
                actions[i],
                terminated[i],
            ),
        forall|i: int| 0 <= i < signals.len() ==> !kills_helpers(#[trigger] signals[i]),
    ensures
        forall|i: int|
            0 <= i < models.len() ==> #[trigger] populated_count(models[i].1) == populated_count(
                models[0].1,
            ) && models[i] == models[0],
        forall|i: int| 0 <= i < terminated.len() ==> (#[trigger] terminated[i]).len() == 0,
{
    assert forall|i: int| 0 <= i < models.len() implies #[trigger] populated_count(models[i].1)
        == populated_count(models[0].1) && models[i] == models[0] by {
        lemma_prefix_unchanged(models, signals, actions, terminated, i);
    }
    assert forall|i: int| 0 <= i < terminated.len() implies (#[trigger] terminated[i]).len()
        == 0 by {
        assert(signal_step(models[i], signals[i], models[i + 1], actions[i], terminated[i]));
        assert(!kills_helpers(signals[i]));
    }
}

proof fn lemma_prefix_unchanged<H>(
    models: Seq<CoordinatorModel<H>>,
    signals: Seq<Signal>,
    actions: Seq<Action>,
    terminated: Seq<Seq<H>>,
    n: int,
)
    requires
        models.len() == signals.len() + 1,
        actions.len() == signals.len(),
        terminated.len() == signals.len(),
        0 <= n < models.len(),
        forall|i: int|
            0 <= i < signals.len() ==> signal_step(
                models[i],
                #[trigger] signals[i],
                models[i + 1],
                actions[i],
                terminated[i],
            ),
        forall|i: int| 0 <= i < n ==> !kills_helpers(#[trigger] signals[i]),
    ensures
        models[n] == models[0],
    decreases n,
{
    if n > 0 {
        lemma_prefix_unchanged(models, signals, actions, terminated, n - 1);
        assert(signal_step(models[n - 1], signals[n - 1], models[n], actions[n - 1], terminated[n - 1]));
        assert(!kills_helpers(signals[n - 1]));
        assert(models[n].0 == models[n - 1].0);
    }
}

/// A quit or exit signal empties the registry exactly once: the first such
/// signal hands out every helper that was alive, and from then on the
/// registry stays empty, nothing more is handed out, and the application
/// stays terminating.
pub proof fn lemma_quit_empties_once<H>(
    models: Seq<CoordinatorModel<H>>,
    signals: Seq<Signal>,
    actions: Seq<Action>,
    terminated: Seq<Seq<H>>,
    k: int,
)
    requires
        models.len() == signals.len() + 1,
        actions.len() == signals.len(),
        terminated.len() == signals.len(),
        forall|i: int|
            0 <= i < signals.len() ==> signal_step(
                models[i],
                #[trigger] signals[i],
                models[i + 1],
                actions[i],
                terminated[i],
            ),
        0 <= k < signals.len(),
        kills_helpers(signals[k]),
        forall|i: int| 0 <= i < k ==> !kills_helpers(#[trigger] signals[i]),
    ensures
        terminated[k] == live_handles(models[0].1),
        forall|i: int| 0 <= i < terminated.len() && i != k ==> (#[trigger] terminated[i]).len()
            == 0,
        forall|j: int|
            k < j < models.len() ==> populated_count((#[trigger] models[j]).1) == 0
                && models[j].0 == AppState::Terminating,
{
    lemma_prefix_unchanged(models, signals, actions, terminated, k);
    assert(signal_step(models[k], signals[k], models[k + 1], actions[k], terminated[k]));
    assert forall|j: int| k < j < models.len() implies populated_count((#[trigger] models[j]).1)
        == 0 && models[j].0 == AppState::Terminating by {
        lemma_suffix_empty(models, signals, actions, terminated, k, j);
        lemma_all_empty_no_handles(models[j].1);
    }
    assert forall|i: int| 0 <= i < terminated.len() && i != k implies (#[trigger] terminated[
        i]).len() == 0 by {
        assert(signal_step(models[i], signals[i], models[i + 1], actions[i], terminated[i]));
        if i < k {
            assert(!kills_helpers(signals[i]));
        } else {
            lemma_suffix_empty(models, signals, actions, terminated, k, i);
            lemma_all_empty_no_handles(models[i].1);
        }
    }
}

proof fn lemma_suffix_empty<H>(
    models: Seq<CoordinatorModel<H>>,
    signals: Seq<Signal>,
    actions: Seq<Action>,
    terminated: Seq<Seq<H>>,
    k: int,
    n: int,
)
    requires
        models.len() == signals.len() + 1,
        actions.len() == signals.len(),
        terminated.len() == signals.len(),
        forall|i: int|
            0 <= i < signals.len() ==> signal_step(
                models[i],
                #[trigger] signals[i],
                models[i + 1],
                actions[i],
                terminated[i],
            ),
        0 <= k < n < models.len(),
        kills_helpers(signals[k]),
    ensures
        all_empty(models[n].1),
        models[n].0 == AppState::Terminating,
    decreases n - k,
{
    assert(signal_step(models[n - 1], signals[n - 1], models[n], actions[n - 1], terminated[n - 1]));
    if n - 1 > k {
        lemma_suffix_empty(models, signals, actions, terminated, k, n - 1);
    }
}

} // verus!

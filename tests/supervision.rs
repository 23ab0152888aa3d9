use sidecar_supervisor::env::compose_env;
use sidecar_supervisor::lifecycle::{
    menu_signal, transition, Action, AppState, LifecycleCoordinator, Signal,
};
use sidecar_supervisor::registry::SupervisedProcessRegistry;
use sidecar_supervisor::slot::ProcessSlot;
use sidecar_supervisor::startup::{
    LaunchSpec, Requirement, StartupPhase, StartupSequencer, StartupStep,
};

fn s(x: &str) -> String {
    x.to_string()
}

fn spec(name: &str, requirement: Requirement) -> LaunchSpec {
    LaunchSpec {
        name: s(name),
        program: s(name),
        args: Vec::new(),
        env: Vec::new(),
        requirement,
    }
}

fn registry(names: &[&str]) -> SupervisedProcessRegistry<u32> {
    SupervisedProcessRegistry::from_names(names.iter().map(|n| s(n)).collect()).unwrap()
}

#[test]
fn slot_kill_hands_out_handle_once() {
    let mut slot: ProcessSlot<u32> = ProcessSlot::new(s("server"));
    assert!(!slot.is_populated());
    slot.set(42);
    assert!(slot.is_populated());
    assert_eq!(slot.kill(), Some(42));
    assert_eq!(slot.kill(), None);
    assert_eq!(slot.kill(), None);
    assert!(!slot.is_populated());
    assert_eq!(slot.name(), "server");
}

#[test]
fn slot_kill_on_empty_slot_is_harmless() {
    let mut slot: ProcessSlot<u32> = ProcessSlot::new(s("data-helper"));
    assert_eq!(slot.kill(), None);
    assert!(!slot.is_populated());
}

#[test]
fn registry_rejects_duplicate_names() {
    let r = SupervisedProcessRegistry::<u32>::from_names(vec![s("a"), s("b"), s("a")]);
    assert!(r.is_none());
}

#[test]
fn registry_lookup_by_name() {
    let mut r = registry(&["server", "data-helper"]);
    assert_eq!(r.len(), 2);
    assert_eq!(r.find(&s("data-helper")), Some(1));
    assert_eq!(r.find(&s("server")), Some(0));
    assert_eq!(r.find(&s("missing")), None);
    r.set(&s("data-helper"), 9);
    assert!(r.get(&s("data-helper")).is_populated());
    assert!(!r.get(&s("server")).is_populated());
    assert_eq!(r.populated_count(), 1);
    assert_eq!(r.kill(&s("data-helper")), Some(9));
    assert_eq!(r.kill(&s("data-helper")), None);
    assert_eq!(r.populated_count(), 0);
}

#[test]
fn registry_kill_all_in_order_and_idempotent() {
    let mut r = registry(&["a", "b", "c"]);
    r.set(&s("c"), 3);
    r.set(&s("a"), 1);
    assert_eq!(r.populated_count(), 2);
    assert_eq!(r.kill_all(), vec![1, 3]);
    assert_eq!(r.populated_count(), 0);
    assert_eq!(r.kill_all(), Vec::<u32>::new());
    assert_eq!(r.len(), 3);
}

#[test]
fn registry_empty_table() {
    let mut r = registry(&[]);
    assert_eq!(r.len(), 0);
    assert_eq!(r.kill_all(), Vec::<u32>::new());
}

#[test]
fn env_own_value_overrides_shared() {
    let shared = vec![(s("DATA_DIR"), s("/data")), (s("PORT"), s("3000"))];
    let own = vec![(s("PORT"), s("3001")), (s("AKSHARE_BASE"), s("http://127.0.0.1:8080"))];
    let env = compose_env(&shared, &own);
    assert_eq!(
        env,
        vec![
            (s("DATA_DIR"), s("/data")),
            (s("PORT"), s("3001")),
            (s("AKSHARE_BASE"), s("http://127.0.0.1:8080")),
        ]
    );
}

#[test]
fn env_keeps_last_entry_per_variable() {
    let shared = vec![(s("DATA_DIR"), s("/a")), (s("DATA_DIR"), s("/b"))];
    let own = vec![(s("PORT"), s("1")), (s("NODE_PATH"), s("/m")), (s("PORT"), s("2"))];
    let env = compose_env(&shared, &own);
    assert_eq!(
        env,
        vec![(s("DATA_DIR"), s("/b")), (s("NODE_PATH"), s("/m")), (s("PORT"), s("2"))]
    );
}

#[test]
fn env_empty_inputs() {
    assert!(compose_env(&Vec::new(), &Vec::new()).is_empty());
    let shared = vec![(s("DATA_DIR"), s("/d"))];
    assert_eq!(compose_env(&shared, &Vec::new()), shared);
}

#[test]
fn transition_table() {
    assert_eq!(transition(AppState::Running, Signal::WindowCloseRequested), (Action::HideWindow, AppState::Running));
    assert_eq!(transition(AppState::Running, Signal::TrayShow), (Action::ShowWindow, AppState::Running));
    assert_eq!(transition(AppState::Running, Signal::TrayLeftClick), (Action::ShowWindow, AppState::Running));
    assert_eq!(transition(AppState::Running, Signal::TrayQuit), (Action::KillAllAndExit, AppState::Terminating));
    assert_eq!(transition(AppState::Running, Signal::ExitRequested), (Action::KillAll, AppState::Terminating));
    assert_eq!(transition(AppState::Running, Signal::Exit), (Action::KillAll, AppState::Terminating));
    assert_eq!(transition(AppState::Terminating, Signal::Exit), (Action::KillAll, AppState::Terminating));
    assert_eq!(
        transition(AppState::Terminating, Signal::WindowCloseRequested),
        (Action::HideWindow, AppState::Terminating)
    );
}

#[test]
fn menu_identifiers() {
    assert_eq!(menu_signal(&s("show")), Some(Signal::TrayShow));
    assert_eq!(menu_signal(&s("quit")), Some(Signal::TrayQuit));
    assert_eq!(menu_signal(&s("other")), None);
    assert_eq!(menu_signal(&s("")), None);
}

#[test]
fn window_close_never_kills() {
    let mut r = registry(&["server", "data-helper"]);
    r.set(&s("server"), 1);
    r.set(&s("data-helper"), 2);
    let mut c = LifecycleCoordinator::new(r);
    for _ in 0..5 {
        let (action, terminated) = c.on_signal(Signal::WindowCloseRequested);
        assert_eq!(action, Action::HideWindow);
        assert!(terminated.is_empty());
        assert_eq!(c.registry().populated_count(), 2);
        assert_eq!(c.state(), AppState::Running);
    }
    let (action, terminated) = c.on_signal(Signal::TrayShow);
    assert_eq!(action, Action::ShowWindow);
    assert!(terminated.is_empty());
    assert_eq!(c.registry().populated_count(), 2);
}

#[test]
fn quit_kills_exactly_once() {
    let mut r = registry(&["server", "data-helper"]);
    r.set(&s("server"), 1);
    r.set(&s("data-helper"), 2);
    let mut c = LifecycleCoordinator::new(r);
    let (action, terminated) = c.on_signal(Signal::TrayQuit);
    assert_eq!(action, Action::KillAllAndExit);
    assert_eq!(terminated, vec![1, 2]);
    assert_eq!(c.registry().populated_count(), 0);
    assert_eq!(c.state(), AppState::Terminating);
    let (action, terminated) = c.on_signal(Signal::ExitRequested);
    assert_eq!(action, Action::KillAll);
    assert!(terminated.is_empty());
    let (_, terminated) = c.on_signal(Signal::Exit);
    assert!(terminated.is_empty());
    assert_eq!(c.registry().len(), 2);
}

#[test]
fn exit_signal_kills_helpers() {
    let mut r = registry(&["server"]);
    r.set(&s("server"), 5);
    let mut c = LifecycleCoordinator::new(r);
    let (action, terminated) = c.on_signal(Signal::Exit);
    assert_eq!(action, Action::KillAll);
    assert_eq!(terminated, vec![5]);
    assert_eq!(c.state(), AppState::Terminating);
}

#[test]
fn optional_failure_warns_and_required_success_runs() {
    let specs = vec![spec("helper-a", Requirement::Optional), spec("helper-b", Requirement::Required)];
    let mut seq: StartupSequencer<u32> = StartupSequencer::new(specs).unwrap();
    assert_eq!(seq.phase(), StartupPhase::AwaitingDataDir);
    assert_eq!(seq.next_launch(), None);
    assert!(matches!(seq.on_data_dir(Some(s("/data"))), StartupStep::Continue));
    assert_eq!(seq.phase(), StartupPhase::Launching);

    assert_eq!(seq.next_launch(), Some(0));
    assert_eq!(seq.spec(0).name, "helper-a");
    match seq.on_spawn(None) {
        StartupStep::Warn { name } => assert_eq!(name, "helper-a"),
        _ => panic!("expected a warning for helper-a"),
    }
    assert_eq!(seq.phase(), StartupPhase::Launching);

    assert_eq!(seq.next_launch(), Some(1));
    assert_eq!(seq.launch_env(1), vec![(s("DATA_DIR"), s("/data"))]);
    assert!(matches!(seq.on_spawn(Some(77)), StartupStep::Continue));
    assert_eq!(seq.phase(), StartupPhase::Running);
    assert_eq!(seq.next_launch(), None);

    let reg = seq.into_registry();
    assert!(!reg.get(&s("helper-a")).is_populated());
    assert!(reg.get(&s("helper-b")).is_populated());

    let mut c = LifecycleCoordinator::new(reg);
    assert_eq!(c.state(), AppState::Running);
    let (action, terminated) = c.on_signal(Signal::TrayQuit);
    assert_eq!(action, Action::KillAllAndExit);
    assert_eq!(terminated, vec![77]);
    assert_eq!(c.registry().populated_count(), 0);
}

#[test]
fn required_failure_is_fatal() {
    let mut seq: StartupSequencer<u32> =
        StartupSequencer::new(vec![spec("server", Requirement::Required)]).unwrap();
    assert!(matches!(seq.on_data_dir(Some(s("/data"))), StartupStep::Continue));
    assert_eq!(seq.next_launch(), Some(0));
    match seq.on_spawn(None) {
        StartupStep::FatalHelper { name, terminate } => {
            assert_eq!(name, "server");
            assert!(terminate.is_empty());
        }
        _ => panic!("expected a fatal step"),
    }
    assert_eq!(seq.phase(), StartupPhase::Aborted);
    assert_eq!(seq.next_launch(), None);
}

#[test]
fn required_failure_kills_helpers_already_started() {
    let specs = vec![
        spec("data-helper", Requirement::Optional),
        spec("cache", Requirement::Required),
        spec("server", Requirement::Required),
    ];
    let mut seq: StartupSequencer<u32> = StartupSequencer::new(specs).unwrap();
    seq.on_data_dir(Some(s("/data")));
    assert!(matches!(seq.on_spawn(Some(10)), StartupStep::Continue));
    assert!(matches!(seq.on_spawn(Some(11)), StartupStep::Continue));
    match seq.on_spawn(None) {
        StartupStep::FatalHelper { name, terminate } => {
            assert_eq!(name, "server");
            assert_eq!(terminate, vec![10, 11]);
        }
        _ => panic!("expected a fatal step"),
    }
    assert_eq!(seq.phase(), StartupPhase::Aborted);
}

#[test]
fn data_dir_failure_is_fatal() {
    let mut seq: StartupSequencer<u32> =
        StartupSequencer::new(vec![spec("server", Requirement::Required)]).unwrap();
    assert!(matches!(seq.on_data_dir(None), StartupStep::FatalDataDir));
    assert_eq!(seq.phase(), StartupPhase::Aborted);
    assert_eq!(seq.next_launch(), None);
}

#[test]
fn no_helpers_runs_at_once() {
    let mut seq: StartupSequencer<u32> = StartupSequencer::new(Vec::new()).unwrap();
    seq.on_data_dir(Some(s("/data")));
    assert_eq!(seq.phase(), StartupPhase::Running);
    assert_eq!(seq.into_registry().len(), 0);
}

#[test]
fn duplicate_helper_names_are_refused() {
    let specs = vec![spec("server", Requirement::Required), spec("server", Requirement::Optional)];
    assert!(StartupSequencer::<u32>::new(specs).is_none());
}

#[test]
fn launch_env_merges_shared_and_own() {
    let mut server = spec("server", Requirement::Required);
    server.env = vec![(s("PORT"), s("3001")), (s("DATA_DIR"), s("/override"))];
    let mut seq: StartupSequencer<u32> = StartupSequencer::new(vec![server]).unwrap();
    seq.on_data_dir(Some(s("/data")));
    assert_eq!(
        seq.launch_env(0),
        vec![(s("PORT"), s("3001")), (s("DATA_DIR"), s("/override"))]
    );
}

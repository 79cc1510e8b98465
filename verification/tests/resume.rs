use edbgserver::resume::ResumeActions;
use gdbstub::common::Signal;
use nix::sys::signal::Signal as HostSignal;

#[test]
fn plan_follows_recorded_actions() {
    let mut actions = ResumeActions::new();
    actions.set_resume_action_continue(100, None);
    actions.set_resume_action_step(101, Some(Signal::SIGUSR1));
    actions.set_resume_action_continue(102, Some(Signal::SIGPOLL));
    let plan = actions.resume_plan();
    let got: Vec<(u32, bool, Option<HostSignal>)> =
        plan.iter().map(|s| (s.tid, s.single_step, s.signal)).collect();
    assert_eq!(
        got,
        vec![
            (100, false, Some(HostSignal::SIGCONT)),
            (101, true, Some(HostSignal::SIGUSR1)),
            (102, false, Some(HostSignal::SIGIO)),
        ]
    );
}

#[test]
fn cleared_actions_plan_nothing() {
    let mut actions = ResumeActions::new();
    actions.set_resume_action_step(7, None);
    actions.clear_resume_actions();
    assert!(actions.resume_plan().is_empty());
    actions.set_resume_action_step(8, None);
    let plan = actions.resume_plan();
    assert_eq!(plan.len(), 1);
    assert!(plan[0].single_step);
    assert_eq!(plan[0].signal, Some(HostSignal::SIGCONT));
}

#[test]
fn thread_id_keeps_low_bits() {
    let mut actions = ResumeActions::new();
    actions.set_resume_action_continue(0x1_0000_0005, None);
    assert_eq!(actions.resume_plan()[0].tid, 5);
}

#[test]
fn unsupported_signal_is_marked_in_the_plan() {
    let mut actions = ResumeActions::new();
    actions.set_resume_action_continue(1, Some(Signal::SIGEMT));
    actions.set_resume_action_continue(2, None);
    let plan = actions.resume_plan();
    assert_eq!(plan[0].signal, None);
    assert_eq!(plan[1].signal, Some(HostSignal::SIGCONT));
}

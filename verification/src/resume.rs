//! Resuming a multi-threaded target: GDB records, thread by thread, whether to
//! continue or single-step it and with which signal, then asks to resume; the
//! server turns the recorded actions into the signals it sends.
use vstd::prelude::*;

use gdbstub::common::Signal;
use nix::sys::signal::Signal as HostSignal;

use crate::signal::{host_signal, host_signal_of};

verus! {

/// What GDB asked for one thread, with the signal to deliver, if any.
#[derive(Clone, Copy, Debug, PartialEq, Eq)]
pub enum ThreadAction {
    Continue(Option<Signal>),
    Step(Option<Signal>),
}

/// What the server does for one thread on resume: single-step it first or not,
/// then send it `signal`; `None` stands for a requested signal that the server
/// does not forward, which ends the resume with a failure.
pub struct ResumeStep {
    pub tid: u32,
    pub single_step: bool,
    pub signal: Option<HostSignal>,
}

/// The signal of an action, if any.
pub open spec fn action_signal(action: ThreadAction) -> Option<Signal> {
    match action {
        ThreadAction::Continue(s) => s,
        ThreadAction::Step(s) => s,
    }
}

/// The thread id as the kernel takes it: the low 32 bits.
pub open spec fn thread_id_of(tid: usize) -> u32 {
    (#[verifier::truncate] (tid as u32))
}

/// What the server does for a recorded action: single-step a stepped thread,
/// then send the requested signal, translated for the host, or SIGCONT if none.
pub open spec fn step_of(tid: usize, action: ThreadAction) -> (u32, bool, Option<HostSignal>) {
    (
        thread_id_of(tid),
        action is Step,
        match action_signal(action) {
            Some(s) => host_signal_of(s.0),
            None => Some(HostSignal::SIGCONT),
        },
    )
}

/// The actions GDB recorded since it last cleared them, in order.
pub struct ResumeActions {
    actions: Vec<(usize, ThreadAction)>,
}

impl View for ResumeActions {
    type V = Seq<(usize, ThreadAction)>;

    closed spec fn view(&self) -> Seq<(usize, ThreadAction)> {
        self.actions@
    }
}

impl ResumeActions {
    /// No action recorded.
    pub fn new() -> (r: Self)
        ensures
            r@ == Seq::<(usize, ThreadAction)>::empty(),
    {
        ResumeActions { actions: Vec::new() }
    }

    /// Forgets every recorded action.
    pub fn clear_resume_actions(&mut self)
        ensures
            final(self)@ == Seq::<(usize, ThreadAction)>::empty(),
    {
        self.actions.clear();
    }

    /// Records that thread `tid` is to continue, with `signal` if given.
    pub fn set_resume_action_continue(&mut self, tid: usize, signal: Option<Signal>)
        ensures
            final(self)@ == old(self)@.push((tid, ThreadAction::Continue(signal))),
    {
        self.actions.push((tid, ThreadAction::Continue(signal)));
    }

    /// Records that thread `tid` is to single-step, with `signal` if given.
    pub fn set_resume_action_step(&mut self, tid: usize, signal: Option<Signal>)
        ensures
            final(self)@ == old(self)@.push((tid, ThreadAction::Step(signal))),
    {
        self.actions.push((tid, ThreadAction::Step(signal)));
    }

    /// What resuming does, thread by thread in the order the actions were recorded.
    pub fn resume_plan(&self) -> (r: Vec<ResumeStep>)
        ensures
            r@.len() == self@.len(),
            forall|i: int|
                0 <= i < r@.len() ==> (#[trigger] r@[i].tid, r@[i].single_step, r@[i].signal)
                    == step_of(self@[i].0, self@[i].1),
            forall|i: int|
                0 <= i < r@.len() ==> #[trigger] r@[i].tid as int == self@[i].0 as int
                    % 0x1_0000_0000,
    {
        let mut plan: Vec<ResumeStep> = Vec::new();
        let n = self.actions.len();
        let mut i: usize = 0;
        while i < n
            invariant
                n == self@.len(),
                i <= n,
                plan@.len() == i,
                forall|j: int|
                    0 <= j < i ==> (#[trigger] plan@[j].tid, plan@[j].single_step, plan@[j].signal)
                        == step_of(self@[j].0, self@[j].1),
            decreases n - i,
        {
            let (tid, action) = self.actions[i];
            let (single_step, requested) = match action {
                ThreadAction::Continue(s) => (false, s),
                ThreadAction::Step(s) => (true, s),
            };
            let signal = match requested {
                Some(sig) => host_signal(&sig),
                None => Some(HostSignal::SIGCONT),
            };
            let tid32 = #[verifier::truncate] (tid as u32);
            plan.push(ResumeStep { tid: tid32, single_step, signal });
            i = i + 1;
        }
        assert forall|j: int| 0 <= j < plan@.len() implies #[trigger] plan@[j].tid as int
            == self@[j].0 as int % 0x1_0000_0000 by {
            lemma_thread_id_low_bits(self@[j].0);
        }
        plan
    }
}

/// The thread that a step acts on is the recorded thread id reduced to its low
/// 32 bits: the recorded id itself whenever it fits in 32 bits.
pub proof fn lemma_thread_id_low_bits(tid: usize)
    ensures
        thread_id_of(tid) as int == tid as int % 0x1_0000_0000,
        tid <= u32::MAX ==> thread_id_of(tid) == tid,
{
    assert((#[verifier::truncate] (tid as u32)) as int == tid as int % 0x1_0000_0000) by (bit_vector);
}

} // verus!
